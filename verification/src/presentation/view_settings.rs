use vstd::prelude::*;

verus! {

/// The color scheme the user picked.
#[derive(Debug, Clone, Copy, PartialEq, Eq, Structural)]
pub enum ThemeMode {
    System,
    Light,
    Dark,
}

/// The interface language the user picked.
#[derive(Debug, Clone, Copy, PartialEq, Eq, Structural)]
pub enum Language {
    System,
    English,
    Turkish,
}

/// How pages are laid out in the view.
#[derive(Debug, Clone, Copy, PartialEq, Eq, Structural)]
pub enum ViewingMode {
    SinglePage,
    ContinuousVertical,
    TwoPageSpread,
    BookMode,
}

/// How the zoom level is chosen; a custom zoom holds its percentage.
#[derive(Debug, Clone, Copy, PartialEq, Eq, Structural)]
pub enum ZoomMode {
    FitWidth,
    FitPage,
    ActualSize,
    Custom(u32),
}

/// The position of a theme in the settings list.
pub open spec fn theme_position(theme: ThemeMode) -> i32 {
    match theme {
        ThemeMode::System => 0,
        ThemeMode::Light => 1,
        ThemeMode::Dark => 2,
    }
}

/// The theme at a position of the settings list; any other position means the system's.
pub open spec fn theme_at(index: i32) -> ThemeMode {
    if index == 1 {
        ThemeMode::Light
    } else if index == 2 {
        ThemeMode::Dark
    } else {
        ThemeMode::System
    }
}

pub fn theme_from_index(index: i32) -> (r: ThemeMode)
    ensures
        r == theme_at(index),
{
    match index {
        1 => ThemeMode::Light,
        2 => ThemeMode::Dark,
        _ => ThemeMode::System,
    }
}

pub fn theme_index(theme: ThemeMode) -> (r: i32)
    ensures
        r == theme_position(theme),
{
    match theme {
        ThemeMode::System => 0,
        ThemeMode::Light => 1,
        ThemeMode::Dark => 2,
    }
}

/// The settings list gives back the theme it shows.
pub proof fn lemma_theme_index_round_trip(theme: ThemeMode)
    ensures
        theme_at(theme_position(theme)) == theme,
{
}

/// The position of a language in the settings list.
pub open spec fn language_position(language: Language) -> i32 {
    match language {
        Language::System => 0,
        Language::English => 1,
        Language::Turkish => 2,
    }
}

/// The language at a position of the settings list; any other position means the system's.
pub open spec fn language_at(index: i32) -> Language {
    if index == 1 {
        Language::English
    } else if index == 2 {
        Language::Turkish
    } else {
        Language::System
    }
}

pub fn language_index(language: Language) -> (r: i32)
    ensures
        r == language_position(language),
{
    match language {
        Language::System => 0,
        Language::English => 1,
        Language::Turkish => 2,
    }
}

/// The language the window's language list shows at `index`.
pub fn language_from_index(index: i32) -> (r: Language)
    ensures
        r == language_at(index),
{
    match index {
        1 => Language::English,
        2 => Language::Turkish,
        _ => Language::System,
    }
}

/// The language list gives back the language it shows.
pub proof fn lemma_language_index_round_trip(language: Language)
    ensures
        language_at(language_position(language)) == language,
{
}

/// The position of a zoom mode in the zoom list: fit width and fit page have their own
/// entries; actual size and custom zoom share the first.
pub open spec fn zoom_position(mode: ZoomMode) -> i32 {
    match mode {
        ZoomMode::FitWidth => 1,
        ZoomMode::FitPage => 2,
        ZoomMode::ActualSize => 0,
        ZoomMode::Custom(_) => 0,
    }
}

pub fn zoom_mode_index(mode: ZoomMode) -> (r: i32)
    ensures
        r == zoom_position(mode),
{
    match mode {
        ZoomMode::FitWidth => 1,
        ZoomMode::FitPage => 2,
        ZoomMode::ActualSize | ZoomMode::Custom(_) => 0,
    }
}

/// The layouts the view supports: single pages stay, every other layout becomes one
/// continuous column.
pub open spec fn supported_mode(mode: ViewingMode) -> ViewingMode {
    match mode {
        ViewingMode::SinglePage => ViewingMode::SinglePage,
        _ => ViewingMode::ContinuousVertical,
    }
}

pub fn normalize_viewing_mode(mode: ViewingMode) -> (r: ViewingMode)
    ensures
        r == supported_mode(mode),
{
    match mode {
        ViewingMode::SinglePage => ViewingMode::SinglePage,
        _ => ViewingMode::ContinuousVertical,
    }
}

/// Normalizing a supported layout changes nothing.
pub proof fn lemma_normalize_is_idempotent(mode: ViewingMode)
    ensures
        supported_mode(supported_mode(mode)) == supported_mode(mode),
{
}

/// The position of a layout in the layout switch: 1 for single pages, 0 otherwise.
pub fn view_mode_index(mode: ViewingMode) -> (r: i32)
    ensures
        r == (if mode == ViewingMode::SinglePage {
            1i32
        } else {
            0i32
        }),
{
    match mode {
        ViewingMode::SinglePage => 1,
        _ => 0,
    }
}

/// The translation key of a layout's label.
pub fn view_mode_label_key(mode: ViewingMode) -> (r: &'static str)
    ensures
        r@ == (if mode == ViewingMode::SinglePage {
            "view.mode.single"@
        } else {
            "view.mode.continuous"@
        }),
{
    match mode {
        ViewingMode::SinglePage => "view.mode.single",
        _ => "view.mode.continuous",
    }
}

/// The layout switch: a continuous column becomes single pages, any other layout a
/// continuous column.
pub fn toggled_view_mode(mode: ViewingMode) -> (r: ViewingMode)
    ensures
        mode == ViewingMode::ContinuousVertical ==> r == ViewingMode::SinglePage,
        mode != ViewingMode::ContinuousVertical ==> r == ViewingMode::ContinuousVertical,
{
    match mode {
        ViewingMode::ContinuousVertical => ViewingMode::SinglePage,
        _ => ViewingMode::ContinuousVertical,
    }
}

/// How the window shows the document.
#[derive(Debug, Clone, Copy, PartialEq, Eq, Structural)]
pub enum WindowMode {
    Normal,
    FullScreen,
    Presentation,
}

/// The position of a window mode in the window's mode switch.
pub fn window_mode_index(mode: WindowMode) -> (r: i32)
    ensures
        r == match mode {
            WindowMode::Normal => 0i32,
            WindowMode::FullScreen => 1i32,
            WindowMode::Presentation => 2i32,
        },
{
    match mode {
        WindowMode::Normal => 0,
        WindowMode::FullScreen => 1,
        WindowMode::Presentation => 2,
    }
}

/// The full-screen switch: full screen is left for the normal window, and any other mode
/// goes full screen; the answer is whether the window is full screen afterwards.
pub fn toggle_fullscreen(mode: WindowMode) -> (r: (WindowMode, bool))
    ensures
        mode == WindowMode::FullScreen ==> r == (WindowMode::Normal, false),
        mode != WindowMode::FullScreen ==> r == (WindowMode::FullScreen, true),
{
    if mode != WindowMode::FullScreen {
        (WindowMode::FullScreen, true)
    } else {
        (WindowMode::Normal, false)
    }
}

/// Leaving full screen or presentation: the window becomes normal; the answer is whether
/// anything changed.
pub fn exit_special_mode(mode: WindowMode) -> (r: (WindowMode, bool))
    ensures
        r == (WindowMode::Normal, mode != WindowMode::Normal),
{
    (WindowMode::Normal, mode != WindowMode::Normal)
}

} // verus!
