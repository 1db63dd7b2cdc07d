use vstd::prelude::*;
use crate::presentation::model::PaperTintColor;
use crate::presentation::view_settings::{ViewingMode, ZoomMode};

verus! {

/// A user action or system event that the view model steps on.
pub enum Msg {
    OpenDocument(String),
    CloseTab(usize),
    SelectTab(usize),
    UnlockPasswordSubmitted(String),
    UnlockPasswordCancelled,
    NextPage,
    PreviousPage,
    /// Go to the 0-based page.
    GoToPage(u32),
    SetZoom(ZoomMode),
    ZoomIn,
    ZoomOut,
    RotateClockwise,
    SetViewingMode(ViewingMode),
    /// The new scroll offset, as the bits of its `f32`.
    ScrollPositionChanged(u32),
    ToggleZenMode,
    ToggleCommandPalette,
    CommandPaletteQueryChanged(String),
    ExecuteCommand(String),
    SetPaperTint(PaperTintColor),
    WindowResized { width: u32, height: u32 },
}

} // verus!
