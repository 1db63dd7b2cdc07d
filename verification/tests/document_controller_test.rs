use barepdf::application::document_controller::{
    Application, DocumentController, OpenTransition, RenderController,
};
use barepdf::application::state::{DocumentId, DocumentState};
use std::time::Instant;
use barepdf::presentation::render_events::{handle_render_error, RenderErrorKind, RenderErrorOutcome};

fn opening() -> (Application<()>, DocumentId, String) {
    let mut application = Application::new();
    let id = DocumentId::new(7);
    let path = "fixture.pdf".to_string();
    DocumentController::begin_open(&mut application, id, path.clone(), Instant::now(), ());
    (application, id, path)
}

#[test]
fn stale_open_event_does_not_replace_pending_document() {
    let (mut application, _, path) = opening();

    assert!(matches!(
        DocumentController::opened(&mut application, DocumentId::new(8), 3, 10_000),
        OpenTransition::Stale
    ));
    assert_eq!(DocumentController::pending_path(&application), Some(path.as_str()));
}

#[test]
fn password_flow_preserves_pending_document_until_opened() {
    let (mut application, id, path) = opening();

    assert!(DocumentController::require_password(&mut application, id));
    assert_eq!(DocumentController::pending_path(&application), Some(path.as_str()));
    assert!(matches!(
        DocumentController::opened(&mut application, id, 3, 10_000),
        OpenTransition::Ready(_)
    ));
    assert!(DocumentController::pending_path(&application).is_none());
    assert_eq!(application.ready_document().map(|d| d.path()), Some(path.as_str()));
}

#[test]
fn invalid_page_count_becomes_retryable_failure() {
    let (mut application, id, path) = opening();

    assert!(matches!(
        DocumentController::opened(&mut application, id, 10_001, 10_000),
        OpenTransition::InvalidPageCount
    ));
    assert_eq!(DocumentController::failed_path(&application), Some(path.as_str()));
    assert!(application.ready_document().is_none());
}

#[test]
fn page_index_is_bounded_by_ready_document() {
    let (mut application, id, _) = opening();
    assert!(matches!(
        DocumentController::opened(&mut application, id, 2, 10_000),
        OpenTransition::Ready(_)
    ));

    assert_eq!(DocumentController::page_index(&application, 1), Some(1));
    assert!(DocumentController::page_index(&application, 2).is_none());
}

#[test]
fn opening_replacement_keeps_previous_tab_ready() {
    let (mut application, id, original_path) = opening();
    assert!(matches!(
        DocumentController::opened(&mut application, id, 2, 10_000),
        OpenTransition::Ready(_)
    ));

    DocumentController::begin_open(
        &mut application,
        DocumentId::new(8),
        "replacement.pdf".to_string(),
        Instant::now(),
        (),
    );

    assert!(application.tabs.tabs().iter().any(|tab| {
        tab.path.as_deref() == Some(original_path.as_str())
            && matches!(tab.document, Some(DocumentState::Ready(_)))
    }));
}

#[test]
fn event_from_background_tab_is_stale() {
    let (mut application, first_id, _) = opening();
    assert!(matches!(
        DocumentController::opened(&mut application, first_id, 2, 10_000),
        OpenTransition::Ready(_)
    ));
    let second_id = DocumentId::new(8);
    DocumentController::begin_open(
        &mut application,
        second_id,
        "second.pdf".to_string(),
        Instant::now(),
        (),
    );

    assert!(matches!(
        DocumentController::opened(&mut application, first_id, 2, 10_000),
        OpenTransition::Stale
    ));
}

#[test]
fn missing_dormant_path_becomes_failed_without_active_document() {
    let (mut application, id, path) = opening();
    assert!(matches!(
        DocumentController::opened(&mut application, id, 1, 10_000),
        OpenTransition::Ready(_)
    ));

    DocumentController::fail_active_path(&mut application, path.clone());

    assert_eq!(DocumentController::failed_path(&application), Some(path.as_str()));
    assert!(application.ready_document().is_none());
}

#[test]
fn zero_pages_is_an_invalid_page_count() {
    let (mut application, id, _) = opening();
    assert!(matches!(
        DocumentController::opened(&mut application, id, 0, 10_000),
        OpenTransition::InvalidPageCount
    ));
}

#[test]
fn tab_title_is_the_file_name() {
    let mut application: Application<()> = Application::new();
    DocumentController::begin_open(
        &mut application,
        DocumentId::new(1),
        "docs/report.pdf".to_string(),
        Instant::now(),
        (),
    );
    assert_eq!(application.tabs.active().map(|tab| tab.title.as_str()), Some("report.pdf"));
}

#[test]
fn rejects_stale_document_and_generation() {
    let mut application = Application::new();
    let id = DocumentId::new(7);
    DocumentController::begin_open(&mut application, id, "fixture.pdf".to_string(), Instant::now(), ());
    assert!(matches!(
        DocumentController::opened(&mut application, id, 2, 10_000),
        OpenTransition::Ready(_)
    ));

    assert!(RenderController::accepts(&application, id, Some(4), 4));
    assert!(!RenderController::accepts(&application, id, Some(3), 4));
    assert!(!RenderController::accepts(&application, DocumentId::new(8), None, 4));
}

#[test]
fn event_after_active_tab_close_is_rejected() {
    let mut application = Application::new();
    let id = DocumentId::new(1);
    DocumentController::begin_open(&mut application, id, "fixture.pdf".to_string(), Instant::now(), ());
    assert!(matches!(
        DocumentController::opened(&mut application, id, 1, 10_000),
        OpenTransition::Ready(_)
    ));
    let active_tab = application.tabs.active_id();
    assert!(active_tab.is_some_and(|tab| application.tabs.close(tab)));

    assert!(!RenderController::accepts(&application, id, Some(1), 1));
}

#[test]
fn render_errors_decide_the_pending_open() {
    let (mut application, id, path) = opening();
    assert_eq!(
        handle_render_error(&mut application, id, None, 1, RenderErrorKind::PasswordRequired),
        RenderErrorOutcome::PasswordPrompt
    );
    assert!(DocumentController::is_pending(&application, id));
    assert_eq!(
        handle_render_error(&mut application, id, None, 1, RenderErrorKind::IncorrectPassword),
        RenderErrorOutcome::WrongPassword
    );
    assert_eq!(
        handle_render_error(&mut application, id, None, 1, RenderErrorKind::Other),
        RenderErrorOutcome::OpenFailed
    );
    assert_eq!(DocumentController::failed_path(&application), Some(path.as_str()));
    assert_eq!(
        handle_render_error(&mut application, DocumentId::new(99), Some(1), 1, RenderErrorKind::Other),
        RenderErrorOutcome::Ignored
    );
}
