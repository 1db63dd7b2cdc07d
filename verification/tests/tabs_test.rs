use barepdf::application::document_controller::tab_title;
use barepdf::application::state::{DocumentId, DocumentState};
use barepdf::application::tabs::{OpenTab, TabSet, MAX_OPEN_TABS};

#[derive(Clone, Copy, Debug, PartialEq)]
struct View {
    current_page: u32,
    scroll_y: f32,
}

fn view() -> View {
    View { current_page: 0, scroll_y: 0.0 }
}

#[test]
fn sixteenth_tab_is_allowed_and_seventeenth_is_rejected() {
    let mut tabs = TabSet::new();
    for index in 0..MAX_OPEN_TABS {
        assert!(matches!(
            tabs.open(format!("{index}.pdf"), index.to_string(), view()),
            OpenTab::Created(_)
        ));
    }
    assert_eq!(tabs.open("full.pdf".to_string(), "full".into(), view()), OpenTab::Full);
}

#[test]
fn duplicate_path_activates_existing_tab() {
    let mut tabs = TabSet::new();
    let OpenTab::Created(first) = tabs.open("same.pdf".to_string(), "same".into(), view()) else {
        panic!("first open creates a tab");
    };
    assert_eq!(
        tabs.open("same.pdf".to_string(), "same".into(), view()),
        OpenTab::Existing(first)
    );
    assert_eq!(tabs.tabs().len(), 1);
}

#[test]
fn active_empty_tab_is_reused_for_open() {
    let mut tabs = TabSet::new();
    let empty = tabs.new_empty(view());

    assert_eq!(
        tabs.open("opened.pdf".to_string(), "opened".into(), view()),
        empty.map_or(OpenTab::Full, OpenTab::Existing)
    );
    assert_eq!(tabs.tabs().len(), 1);
    assert_eq!(tabs.active().and_then(|tab| tab.path.as_deref()), Some("opened.pdf"));
}

#[test]
fn active_close_prefers_right_then_left_and_last_becomes_empty() {
    let mut tabs = TabSet::new();
    let OpenTab::Created(left) = tabs.open("a.pdf".to_string(), "a".into(), view()) else {
        panic!("a opens");
    };
    let OpenTab::Created(middle) = tabs.open("b.pdf".to_string(), "b".into(), view()) else {
        panic!("b opens");
    };
    let OpenTab::Created(right) = tabs.open("c.pdf".to_string(), "c".into(), view()) else {
        panic!("c opens");
    };
    assert!(tabs.activate(middle));
    assert!(tabs.close(middle));
    assert_eq!(tabs.active_id(), Some(right));
    assert!(tabs.close(right));
    assert_eq!(tabs.active_id(), Some(left));
    assert!(tabs.close(left));
    assert_eq!(tabs.active_id(), None);
}

#[test]
fn repeated_switching_keeps_one_fixed_tab_set() {
    let mut tabs = TabSet::new();
    let OpenTab::Created(first) = tabs.open("a.pdf".to_string(), "a".into(), view()) else {
        panic!("a opens");
    };
    let OpenTab::Created(second) = tabs.open("b.pdf".to_string(), "b".into(), view()) else {
        panic!("b opens");
    };
    for _ in 0..100 {
        assert!(tabs.activate(first));
        assert!(tabs.activate(second));
    }
    assert_eq!(tabs.tabs().len(), 2);
}

#[test]
fn switching_restores_each_tabs_view_state() {
    let mut tabs = TabSet::new();
    let OpenTab::Created(first) = tabs.open("a.pdf".to_string(), "a".into(), view()) else {
        panic!("a opens");
    };
    tabs.set_active_view(View { current_page: 7, scroll_y: -320.0 });
    let OpenTab::Created(second) = tabs.open("b.pdf".to_string(), "b".into(), view()) else {
        panic!("b opens");
    };
    tabs.set_active_view(View { current_page: 2, scroll_y: 0.0 });

    assert!(tabs.activate(first));
    assert_eq!(tabs.active().map(|tab| tab.view.current_page), Some(7));
    assert_eq!(tabs.active().map(|tab| tab.view.scroll_y), Some(-320.0));
    assert!(tabs.activate(second));
    assert_eq!(tabs.active().map(|tab| tab.view.current_page), Some(2));
}

#[test]
fn loading_tab_can_be_closed() {
    let mut tabs = TabSet::new();
    let OpenTab::Created(id) = tabs.open("a.pdf".to_string(), "a".into(), view()) else {
        panic!("a opens");
    };
    tabs.set_active_document(Some(DocumentState::Opening {
        id: DocumentId::new(1),
        path: "a.pdf".to_string(),
        started_at: std::time::Instant::now(),
        active: None,
    }));
    assert!(tabs.close(id));
    assert!(tabs.tabs().is_empty());
}

#[test]
fn closing_blank_tab_restores_document_neighbor() {
    let mut tabs = TabSet::new();
    let OpenTab::Created(document) = tabs.open("a.pdf".to_string(), "a".into(), view()) else {
        panic!("a opens");
    };
    let Some(blank) = tabs.new_empty(view()) else {
        panic!("a blank tab fits");
    };

    assert!(tabs.close(blank));
    assert_eq!(tabs.active_id(), Some(document));
}

#[test]
fn switching_away_from_password_tab_exposes_only_target_state() {
    let mut tabs = TabSet::new();
    let OpenTab::Created(protected) = tabs.open("protected.pdf".to_string(), "p".into(), view())
    else {
        panic!("protected opens");
    };
    tabs.set_active_document(Some(DocumentState::PasswordRequired {
        id: DocumentId::new(protected.get()),
        path: "protected.pdf".to_string(),
        started_at: std::time::Instant::now(),
        active: None,
    }));
    let OpenTab::Created(plain) = tabs.open("plain.pdf".to_string(), "plain".into(), view()) else {
        panic!("plain opens");
    };

    assert_eq!(tabs.active_id(), Some(plain));
    assert!(!tabs.active().is_some_and(|tab| tab.is_loading()));
}

#[test]
fn closing_the_created_tab_gives_back_the_previous_tabs() {
    let mut tabs = TabSet::new();
    let _ = tabs.open("a.pdf".to_string(), "a".into(), view());
    let before: Vec<u64> = tabs.tabs().iter().map(|tab| tab.id.get()).collect();
    let OpenTab::Created(created) = tabs.open("b.pdf".to_string(), "b".into(), view()) else {
        panic!("b opens");
    };
    assert!(tabs.close(created));
    let after: Vec<u64> = tabs.tabs().iter().map(|tab| tab.id.get()).collect();
    assert_eq!(before, after);
    assert_eq!(tabs.find_id(created.get()), None);
}

#[test]
fn unknown_tab_is_neither_activated_nor_closed() {
    let mut tabs = TabSet::new();
    let OpenTab::Created(first) = tabs.open("a.pdf".to_string(), "a".into(), view()) else {
        panic!("a opens");
    };
    assert!(tabs.close(first));
    assert!(!tabs.activate(first));
    assert!(!tabs.close(first));
    assert_eq!(tabs.path(first), None);
}

#[test]
fn paths_naming_the_same_file_share_one_tab() {
    let mut tabs = TabSet::new();
    let OpenTab::Created(first) = tabs.open("docs/a.pdf".to_string(), "a".into(), view()) else {
        panic!("first open creates a tab");
    };
    assert_eq!(
        tabs.open("docs//a.pdf".to_string(), "a".into(), view()),
        OpenTab::Existing(first)
    );
    assert_eq!(
        tabs.open("docs/./a.pdf".to_string(), "a".into(), view()),
        OpenTab::Existing(first)
    );
    assert_eq!(tabs.tabs().len(), 1);
}

#[test]
fn tab_titles_are_file_names() {
    assert_eq!(tab_title("docs/report.pdf"), "report.pdf");
    assert_eq!(tab_title("docs/.."), "document.pdf");
    assert_eq!(tab_title(""), "document.pdf");
}
