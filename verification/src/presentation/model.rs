use vstd::prelude::*;
use crate::application::state::DocumentId;
use crate::presentation::view_settings::{ViewingMode, ZoomMode};

verus! {

/// Paper tint color mode for reading ergonomics.
#[derive(Debug, Clone, Copy, PartialEq, Eq, Structural)]
pub enum PaperTintColor {
    Normal,
    WarmSepia,
    Night,
    OledAmber,
}

/// The stored number of a tint.
pub open spec fn tint_code(t: PaperTintColor) -> u8 {
    match t {
        PaperTintColor::Normal => 0,
        PaperTintColor::WarmSepia => 1,
        PaperTintColor::Night => 2,
        PaperTintColor::OledAmber => 3,
    }
}

/// The tint a stored number names; unknown numbers fall back to the original colors.
pub open spec fn tint_of_code(value: u8) -> PaperTintColor {
    if value == 1 {
        PaperTintColor::WarmSepia
    } else if value == 2 {
        PaperTintColor::Night
    } else if value == 3 {
        PaperTintColor::OledAmber
    } else {
        PaperTintColor::Normal
    }
}

/// The name shown for a tint.
pub open spec fn tint_name(t: PaperTintColor) -> Seq<char> {
    match t {
        PaperTintColor::Normal => "Original"@,
        PaperTintColor::WarmSepia => "Warm Sepia"@,
        PaperTintColor::Night => "Dark Invert"@,
        PaperTintColor::OledAmber => "OLED Amber"@,
    }
}

impl PaperTintColor {
    pub fn from_u8(value: u8) -> (r: Self)
        ensures
            r == tint_of_code(value),
    {
        match value {
            1 => PaperTintColor::WarmSepia,
            2 => PaperTintColor::Night,
            3 => PaperTintColor::OledAmber,
            _ => PaperTintColor::Normal,
        }
    }

    pub fn as_u8(self) -> (r: u8)
        ensures
            r == tint_code(self),
    {
        match self {
            PaperTintColor::Normal => 0,
            PaperTintColor::WarmSepia => 1,
            PaperTintColor::Night => 2,
            PaperTintColor::OledAmber => 3,
        }
    }

    pub fn display_name(self) -> (r: &'static str)
        ensures
            r@ == tint_name(self),
    {
        match self {
            PaperTintColor::Normal => "Original",
            PaperTintColor::WarmSepia => "Warm Sepia",
            PaperTintColor::Night => "Dark Invert",
            PaperTintColor::OledAmber => "OLED Amber",
        }
    }
}

impl Default for PaperTintColor {
    fn default() -> (r: Self)
        ensures
            r == PaperTintColor::Normal,
    {
        PaperTintColor::Normal
    }
}

/// Every tint survives being stored as its number and read back.
pub proof fn lemma_tint_code_round_trip(t: PaperTintColor)
    ensures
        tint_of_code(tint_code(t)) == t,
        tint_code(t) <= 3,
{
}

/// Reading a stored number and storing the tint again keeps known numbers and turns
/// unknown ones into the original colors' number.
pub proof fn lemma_code_normalizes(value: u8)
    ensures
        tint_code(tint_of_code(value)) == if value <= 3 {
            value
        } else {
            0u8
        },
{
}

/// Active sidebar tab view.
#[derive(Debug, Clone, Copy, PartialEq, Eq, Structural)]
pub enum SidebarTab {
    Thumbnails,
    Outline,
}

impl Default for SidebarTab {
    fn default() -> (r: Self)
        ensures
            r == SidebarTab::Thumbnails,
    {
        SidebarTab::Thumbnails
    }
}

/// The stored preferences that the view model reads and changes.
#[derive(Debug, Clone, Copy, PartialEq, Eq, Structural)]
pub struct ModelPreferences {
    pub paper_tint: u8,
    pub viewing_mode: ViewingMode,
    pub zoom_mode: ZoomMode,
    pub active_tab_index: usize,
    pub last_window_width: u32,
    pub last_window_height: u32,
    pub sidebar_visible: bool,
    pub invert_colors: bool,
}

/// A document tab as the view model sees it; the scroll offset is kept as the bits of
/// its `f32`.
pub struct DocumentTabModel {
    pub id: DocumentId,
    pub path: String,
    pub file_name: String,
    pub page_count: u32,
    pub current_page: u32,
    pub scroll_y_bits: u32,
}

pub ghost struct TabModelView {
    pub id: DocumentId,
    pub path: Seq<char>,
    pub file_name: Seq<char>,
    pub page_count: u32,
    pub current_page: u32,
    pub scroll_y_bits: u32,
}

impl View for DocumentTabModel {
    type V = TabModelView;

    open spec fn view(&self) -> TabModelView {
        TabModelView {
            id: self.id,
            path: self.path@,
            file_name: self.file_name@,
            page_count: self.page_count,
            current_page: self.current_page,
            scroll_y_bits: self.scroll_y_bits,
        }
    }
}

/// The state of the window's view model.
pub struct AppModel {
    pub active_tab_index: usize,
    pub tabs: Vec<DocumentTabModel>,
    pub viewing_mode: ViewingMode,
    pub zoom_mode: ZoomMode,
    pub sidebar_open: bool,
    pub sidebar_tab: SidebarTab,
    pub command_palette_open: bool,
    pub command_palette_query: String,
    pub zen_mode: bool,
    pub paper_tint: PaperTintColor,
    pub preferences: ModelPreferences,
}

pub ghost struct AppModelView {
    pub active_tab_index: usize,
    pub tabs: Seq<TabModelView>,
    pub viewing_mode: ViewingMode,
    pub zoom_mode: ZoomMode,
    pub sidebar_open: bool,
    pub sidebar_tab: SidebarTab,
    pub command_palette_open: bool,
    pub command_palette_query: Seq<char>,
    pub zen_mode: bool,
    pub paper_tint: PaperTintColor,
    pub preferences: ModelPreferences,
}

impl View for AppModel {
    type V = AppModelView;

    open spec fn view(&self) -> AppModelView {
        AppModelView {
            active_tab_index: self.active_tab_index,
            tabs: self.tabs@.map_values(|t: DocumentTabModel| t@),
            viewing_mode: self.viewing_mode,
            zoom_mode: self.zoom_mode,
            sidebar_open: self.sidebar_open,
            sidebar_tab: self.sidebar_tab,
            command_palette_open: self.command_palette_open,
            command_palette_query: self.command_palette_query@,
            zen_mode: self.zen_mode,
            paper_tint: self.paper_tint,
            preferences: self.preferences,
        }
    }
}

/// A fresh view model for `preferences`: no tabs, the stored layout, zoom, sidebar and
/// tint, the thumbnails tab, and the palette and zen mode closed.
pub open spec fn initial_model(preferences: ModelPreferences) -> AppModelView {
    AppModelView {
        active_tab_index: 0,
        tabs: Seq::empty(),
        viewing_mode: preferences.viewing_mode,
        zoom_mode: preferences.zoom_mode,
        sidebar_open: preferences.sidebar_visible,
        sidebar_tab: SidebarTab::Thumbnails,
        command_palette_open: false,
        command_palette_query: Seq::empty(),
        zen_mode: false,
        paper_tint: tint_of_code(preferences.paper_tint),
        preferences,
    }
}

impl AppModel {
    pub fn new(preferences: ModelPreferences) -> (r: Self)
        ensures
            r@ == initial_model(preferences),
    {
        let r = AppModel {
            active_tab_index: 0,
            tabs: Vec::new(),
            viewing_mode: preferences.viewing_mode,
            zoom_mode: preferences.zoom_mode,
            sidebar_open: preferences.sidebar_visible,
            sidebar_tab: SidebarTab::Thumbnails,
            command_palette_open: false,
            command_palette_query: String::new(),
            zen_mode: false,
            paper_tint: PaperTintColor::from_u8(preferences.paper_tint),
            preferences,
        };
        assert(r@.tabs =~= Seq::<TabModelView>::empty());
        r
    }

    /// The tab at the active index, if there is one.
    pub fn active_tab(&self) -> (r: Option<&DocumentTabModel>)
        ensures
            self@.active_tab_index < self@.tabs.len() ==> (r matches Some(t) && t@
                == self@.tabs[self@.active_tab_index as int]),
            self@.active_tab_index >= self@.tabs.len() ==> r is None,
    {
        if self.active_tab_index < self.tabs.len() {
            Some(&self.tabs[self.active_tab_index])
        } else {
            None
        }
    }
}

} // verus!
