use barepdf::application::state::DocumentId;
use barepdf::presentation::commands::AppCommand;
use barepdf::presentation::message::Msg;
use barepdf::presentation::model::{AppModel, DocumentTabModel, ModelPreferences, PaperTintColor};
use barepdf::presentation::update::update;
use barepdf::presentation::view_settings::{ViewingMode, ZoomMode};

fn preferences() -> ModelPreferences {
    ModelPreferences {
        paper_tint: 0,
        viewing_mode: ViewingMode::ContinuousVertical,
        zoom_mode: ZoomMode::FitWidth,
        active_tab_index: 0,
        last_window_width: 1100,
        last_window_height: 800,
        sidebar_visible: true,
        invert_colors: false,
    }
}

fn make_test_model() -> AppModel {
    let mut model = AppModel::new(preferences());
    model.tabs.push(DocumentTabModel {
        id: DocumentId::new(1),
        path: "test.pdf".to_string(),
        file_name: "test.pdf".to_string(),
        page_count: 5,
        current_page: 0,
        scroll_y_bits: 0,
    });
    model
}

#[test]
fn next_page_advances_current_page_and_requests_render() {
    let mut model = make_test_model();
    let cmd = update(&mut model, Msg::NextPage);
    assert!(matches!(
        cmd,
        Some(AppCommand::RequestPageRender { document_id, page_index: 1 }) if document_id == DocumentId::new(1)
    ));
    assert_eq!(model.tabs[0].current_page, 1);
}

#[test]
fn previous_page_at_first_page_does_nothing() {
    let mut model = make_test_model();
    let cmd = update(&mut model, Msg::PreviousPage);
    assert!(cmd.is_none());
    assert_eq!(model.tabs[0].current_page, 0);
}

#[test]
fn zen_mode_toggles_and_closes_sidebar() {
    let mut model = make_test_model();
    model.sidebar_open = true;
    let cmd = update(&mut model, Msg::ToggleZenMode);
    assert!(model.zen_mode);
    assert!(!model.sidebar_open);
    assert!(matches!(cmd, Some(AppCommand::SyncWindowChrome)));
}

#[test]
fn paper_tint_updates_model_and_invalidates_canvas() {
    let mut model = make_test_model();
    let cmd = update(&mut model, Msg::SetPaperTint(PaperTintColor::WarmSepia));
    assert_eq!(model.paper_tint, PaperTintColor::WarmSepia);
    assert_eq!(model.preferences.paper_tint, 1);
    assert!(matches!(cmd, Some(AppCommand::InvalidateCanvas)));
}

#[test]
fn palette_commands_close_the_palette_and_take_effect() {
    let mut model = make_test_model();
    model.command_palette_open = true;
    let cmd = update(&mut model, Msg::ExecuteCommand("3".to_string()));
    assert!(!model.command_palette_open);
    assert!(matches!(cmd, Some(AppCommand::RequestPageRender { page_index: 2, .. })));
    assert_eq!(model.tabs[0].current_page, 2);

    let cmd = update(&mut model, Msg::ExecuteCommand("frobnicate".to_string()));
    assert!(matches!(
        cmd,
        Some(AppCommand::ShowBanner { ref message, can_retry: false }) if message == "Unknown command: frobnicate"
    ));
    let cmd = update(&mut model, Msg::ExecuteCommand("Fit Page".to_string()));
    assert!(matches!(cmd, Some(AppCommand::InvalidateCanvas)));
    assert_eq!(model.zoom_mode, ZoomMode::FitPage);
}

#[test]
fn closing_the_last_tab_moves_the_active_index_back() {
    let mut model = make_test_model();
    model.tabs.push(DocumentTabModel {
        id: DocumentId::new(2),
        path: "b.pdf".to_string(),
        file_name: "b.pdf".to_string(),
        page_count: 2,
        current_page: 0,
        scroll_y_bits: 0,
    });
    assert!(matches!(update(&mut model, Msg::SelectTab(1)), Some(AppCommand::InvalidateCanvas)));
    assert_eq!(model.preferences.active_tab_index, 1);
    assert!(matches!(update(&mut model, Msg::CloseTab(1)), Some(AppCommand::SavePreferences)));
    assert_eq!(model.active_tab_index, 0);
    assert!(update(&mut model, Msg::CloseTab(5)).is_none());
    let unlock = update(&mut model, Msg::UnlockPasswordSubmitted("pw".to_string()));
    assert!(matches!(
        unlock,
        Some(AppCommand::OpenDocumentPath { ref path, password: Some(_) }) if path == "test.pdf"
    ));
}

#[test]
fn palette_page_past_the_end_goes_to_the_last_page() {
    let mut model = make_test_model();
    model.command_palette_open = true;
    let cmd = update(&mut model, Msg::ExecuteCommand("40".to_string()));
    assert!(!model.command_palette_open);
    assert!(matches!(cmd, Some(AppCommand::RequestPageRender { page_index: 4, .. })));
    assert_eq!(model.tabs[0].current_page, 4);
}

#[test]
fn leaving_zen_from_the_palette_restores_the_preferred_sidebar() {
    let mut model = make_test_model();
    model.sidebar_open = false;
    let cmd = update(&mut model, Msg::ExecuteCommand("zen".to_string()));
    assert!(model.zen_mode);
    assert!(!model.sidebar_open);
    assert!(matches!(cmd, Some(AppCommand::SyncWindowChrome)));
    update(&mut model, Msg::ExecuteCommand("zen".to_string()));
    assert!(!model.zen_mode);
    assert!(model.sidebar_open);
}
