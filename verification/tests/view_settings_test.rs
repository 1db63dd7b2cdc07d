use barepdf::presentation::view_settings::{exit_special_mode, toggle_fullscreen, toggled_view_mode, window_mode_index, WindowMode};
use barepdf::presentation::view_settings::{
    language_from_index, language_index, normalize_viewing_mode, theme_from_index, theme_index,
    view_mode_index, view_mode_label_key, zoom_mode_index, Language, ThemeMode, ViewingMode,
    ZoomMode,
};

#[test]
fn unsupported_view_modes_normalize_to_continuous() {
    assert_eq!(
        normalize_viewing_mode(ViewingMode::BookMode),
        ViewingMode::ContinuousVertical
    );
    assert_eq!(
        normalize_viewing_mode(ViewingMode::TwoPageSpread),
        ViewingMode::ContinuousVertical
    );
    assert_eq!(
        normalize_viewing_mode(ViewingMode::SinglePage),
        ViewingMode::SinglePage
    );
}

#[test]
fn theme_indices_map_to_all_supported_modes() {
    assert_eq!(theme_from_index(0), ThemeMode::System);
    assert_eq!(theme_from_index(1), ThemeMode::Light);
    assert_eq!(theme_from_index(2), ThemeMode::Dark);
}

#[test]
fn zoom_mode_indices_distinguish_fit_modes() {
    assert_eq!(zoom_mode_index(ZoomMode::Custom(100)), 0);
    assert_eq!(zoom_mode_index(ZoomMode::ActualSize), 0);
    assert_eq!(zoom_mode_index(ZoomMode::FitWidth), 1);
    assert_eq!(zoom_mode_index(ZoomMode::FitPage), 2);
}

#[test]
fn settings_lists_give_back_what_they_show() {
    for theme in [ThemeMode::System, ThemeMode::Light, ThemeMode::Dark] {
        assert_eq!(theme_from_index(theme_index(theme)), theme);
    }
    for language in [Language::System, Language::English, Language::Turkish] {
        assert_eq!(language_from_index(language_index(language)), language);
    }
    assert_eq!(theme_from_index(7), ThemeMode::System);
    assert_eq!(language_from_index(-1), Language::System);
}

#[test]
fn layout_switch_and_label_follow_single_page_mode() {
    assert_eq!(view_mode_index(ViewingMode::SinglePage), 1);
    assert_eq!(view_mode_index(ViewingMode::BookMode), 0);
    assert_eq!(view_mode_label_key(ViewingMode::SinglePage), "view.mode.single");
    assert_eq!(view_mode_label_key(ViewingMode::TwoPageSpread), "view.mode.continuous");
    assert_eq!(
        normalize_viewing_mode(normalize_viewing_mode(ViewingMode::BookMode)),
        normalize_viewing_mode(ViewingMode::BookMode)
    );
}

#[test]
fn view_and_window_switches_follow_the_window() {
    assert_eq!(toggled_view_mode(ViewingMode::ContinuousVertical), ViewingMode::SinglePage);
    assert_eq!(toggled_view_mode(ViewingMode::SinglePage), ViewingMode::ContinuousVertical);
    assert_eq!(toggled_view_mode(ViewingMode::BookMode), ViewingMode::ContinuousVertical);
    assert_eq!(toggle_fullscreen(WindowMode::Normal), (WindowMode::FullScreen, true));
    assert_eq!(toggle_fullscreen(WindowMode::FullScreen), (WindowMode::Normal, false));
    assert_eq!(toggle_fullscreen(WindowMode::Presentation), (WindowMode::FullScreen, true));
    assert_eq!(exit_special_mode(WindowMode::Presentation), (WindowMode::Normal, true));
    assert_eq!(exit_special_mode(WindowMode::Normal), (WindowMode::Normal, false));
    assert_eq!(window_mode_index(WindowMode::Presentation), 2);
}
