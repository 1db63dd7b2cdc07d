use vstd::prelude::*;
use crate::presentation::commands::{command_view, AppCommand, CommandView};
use crate::presentation::hud_commands::{hud_action_for, hud_query_action, HudAction};
use crate::presentation::message::Msg;
use crate::presentation::model::{
    tint_code, AppModel, AppModelView, DocumentTabModel, PaperTintColor, TabModelView,
};
use crate::presentation::view_settings::ZoomMode;
use crate::text::push_text;
use crate::tools::job::SecretPassword;
use vstd::utf8::encode_utf8;

verus! {

/// The view model has a tab at its active index.
pub open spec fn has_active(m: AppModelView) -> bool {
    m.active_tab_index < m.tabs.len()
}

/// The active tab shows `page`, whose render is asked for.
pub open spec fn show_page(m: AppModelView, page: u32) -> (AppModelView, Option<CommandView>) {
    let a = m.active_tab_index as int;
    (
        AppModelView {
            tabs: m.tabs.update(a, TabModelView { current_page: page, ..m.tabs[a] }),
            ..m
        },
        Some(CommandView::RequestPageRender { document_id: m.tabs[a].id, page_index: page }),
    )
}

/// Goes to the 0-based `page` of the active tab when it has that page.
pub open spec fn go_to_page(m: AppModelView, page: u32) -> (AppModelView, Option<CommandView>) {
    if has_active(m) && page < m.tabs[m.active_tab_index as int].page_count {
        show_page(m, page)
    } else {
        (m, None)
    }
}

pub open spec fn toggle_zen(m: AppModelView) -> (AppModelView, Option<CommandView>) {
    (
        AppModelView {
            zen_mode: !m.zen_mode,
            sidebar_open: if !m.zen_mode {
                false
            } else {
                m.sidebar_open
            },
            ..m
        },
        Some(CommandView::SyncWindowChrome),
    )
}

pub open spec fn set_tint(m: AppModelView, tint: PaperTintColor) -> (AppModelView, Option<CommandView>) {
    (
        AppModelView {
            paper_tint: tint,
            preferences: crate::presentation::model::ModelPreferences {
                paper_tint: tint_code(tint),
                ..m.preferences
            },
            ..m
        },
        Some(CommandView::InvalidateCanvas),
    )
}

pub open spec fn set_zoom(m: AppModelView, mode: ZoomMode) -> (AppModelView, Option<CommandView>) {
    (
        AppModelView {
            zoom_mode: mode,
            preferences: crate::presentation::model::ModelPreferences {
                zoom_mode: mode,
                ..m.preferences
            },
            ..m
        },
        Some(CommandView::InvalidateCanvas),
    )
}

/// A palette page jump: the active tab goes to the 0-based `page`, or to its last page when
/// it has fewer; a tab without pages stays.
pub open spec fn jump_to_page(m: AppModelView, page: u32) -> (AppModelView, Option<CommandView>) {
    let a = m.active_tab_index as int;
    if has_active(m) && m.tabs[a].page_count > 0 {
        show_page(
            m,
            if page < m.tabs[a].page_count {
                page
            } else {
                (m.tabs[a].page_count - 1) as u32
            },
        )
    } else {
        (m, None)
    }
}

/// Zen mode from the palette: leaving it shows the sidebar as the preferences keep it.
pub open spec fn palette_toggle_zen(m: AppModelView) -> (AppModelView, Option<CommandView>) {
    (
        AppModelView {
            zen_mode: !m.zen_mode,
            sidebar_open: m.zen_mode && m.preferences.sidebar_visible,
            ..m
        },
        Some(CommandView::SyncWindowChrome),
    )
}

/// What a palette command does: the palette closes, then the command takes effect.
pub open spec fn hud_step(m0: AppModelView, action: HudAction) -> (AppModelView, Option<CommandView>) {
    let m = AppModelView { command_palette_open: false, ..m0 };
    match action {
        HudAction::GoToPage(page) => jump_to_page(m, page),
        HudAction::ToggleZen => palette_toggle_zen(m),
        HudAction::ToggleInvert => (
            AppModelView {
                preferences: crate::presentation::model::ModelPreferences {
                    invert_colors: !m.preferences.invert_colors,
                    ..m.preferences
                },
                ..m
            },
            Some(CommandView::InvalidateCanvas),
        ),
        HudAction::SetPaperTint(tint) => set_tint(m, tint),
        HudAction::Print => (m, Some(CommandView::ExecutePrintDialog)),
        HudAction::FitWidth => set_zoom(m, ZoomMode::FitWidth),
        HudAction::FitPage => set_zoom(m, ZoomMode::FitPage),
        HudAction::Unknown(command) => (
            m,
            Some(
                CommandView::ShowBanner {
                    message: "Unknown command: "@ + command@,
                    can_retry: false,
                },
            ),
        ),
        HudAction::Nothing => (m, None),
    }
}

/// One step of the view model on `msg`: the new model and the effect it asks for. A
/// palette command (`ExecuteCommand`) is stepped by `hud_step` on the action it names.
pub open spec fn step(m: AppModelView, msg: Msg) -> (AppModelView, Option<CommandView>) {
    let a = m.active_tab_index as int;
    match msg {
        Msg::NextPage => if has_active(m) && m.tabs[a].current_page + 1 < m.tabs[a].page_count {
            show_page(m, (m.tabs[a].current_page + 1) as u32)
        } else {
            (m, None)
        },
        Msg::PreviousPage => if has_active(m) && m.tabs[a].current_page > 0 {
            show_page(m, (m.tabs[a].current_page - 1) as u32)
        } else {
            (m, None)
        },
        Msg::GoToPage(page) => go_to_page(m, page),
        Msg::ToggleZenMode => toggle_zen(m),
        Msg::ToggleCommandPalette => (
            AppModelView {
                command_palette_open: !m.command_palette_open,
                command_palette_query: if !m.command_palette_open {
                    Seq::empty()
                } else {
                    m.command_palette_query
                },
                ..m
            },
            None,
        ),
        Msg::CommandPaletteQueryChanged(query) => (
            AppModelView { command_palette_query: query@, ..m },
            None,
        ),
        Msg::ExecuteCommand(_) => (m, None),
        Msg::SetPaperTint(tint) => set_tint(m, tint),
        Msg::SetViewingMode(mode) => (
            AppModelView {
                viewing_mode: mode,
                preferences: crate::presentation::model::ModelPreferences {
                    viewing_mode: mode,
                    ..m.preferences
                },
                ..m
            },
            Some(CommandView::InvalidateCanvas),
        ),
        Msg::SetZoom(mode) => set_zoom(m, mode),
        Msg::ZoomIn => (m, Some(CommandView::InvalidateCanvas)),
        Msg::ZoomOut => (m, Some(CommandView::InvalidateCanvas)),
        Msg::RotateClockwise => (m, Some(CommandView::InvalidateCanvas)),
        Msg::ScrollPositionChanged(bits) => if has_active(m) {
            (
                AppModelView {
                    tabs: m.tabs.update(a, TabModelView { scroll_y_bits: bits, ..m.tabs[a] }),
                    ..m
                },
                None,
            )
        } else {
            (m, None)
        },
        Msg::CloseTab(index) => if index < m.tabs.len() {
            let tabs = m.tabs.remove(index as int);
            (
                AppModelView {
                    tabs,
                    active_tab_index: if m.active_tab_index >= tabs.len() && tabs.len() > 0 {
                        (tabs.len() - 1) as usize
                    } else {
                        m.active_tab_index
                    },
                    ..m
                },
                Some(CommandView::SavePreferences),
            )
        } else {
            (m, None)
        },
        Msg::SelectTab(index) => if index < m.tabs.len() {
            (
                AppModelView {
                    active_tab_index: index,
                    preferences: crate::presentation::model::ModelPreferences {
                        active_tab_index: index,
                        ..m.preferences
                    },
                    ..m
                },
                Some(CommandView::InvalidateCanvas),
            )
        } else {
            (m, None)
        },
        Msg::OpenDocument(path) => (
            m,
            Some(CommandView::OpenDocumentPath { path: path@, password: None }),
        ),
        Msg::UnlockPasswordSubmitted(password) => (
            m,
            if has_active(m) {
                Some(
                    CommandView::OpenDocumentPath {
                        path: m.tabs[a].path,
                        password: Some(encode_utf8(password@)),
                    },
                )
            } else {
                None
            },
        ),
        Msg::UnlockPasswordCancelled => (m, None),
        Msg::WindowResized { width, height } => (
            AppModelView {
                preferences: crate::presentation::model::ModelPreferences {
                    last_window_width: width,
                    last_window_height: height,
                    ..m.preferences
                },
                ..m
            },
            None,
        ),
    }
}

/// The active tab shows `page`.
fn set_active_page(model: &mut AppModel, page: u32)
    requires
        has_active(old(model)@),
    ensures
        final(model)@ == show_page(old(model)@, page).0,
{
    let a = model.active_tab_index;
    let ghost before = model.tabs@;
    let mut tab = model.tabs.remove(a);
    tab.current_page = page;
    model.tabs.insert(a, tab);
    proof {
        assert(model.tabs@ =~= before.update(a as int, model.tabs@[a as int]));
        assert(model@.tabs =~= old(model)@.tabs.update(
            a as int,
            TabModelView { current_page: page, ..old(model)@.tabs[a as int] },
        ));
    }
}

fn render_command(model: &AppModel, page: u32) -> (r: AppCommand)
    requires
        has_active(model@),
    ensures
        r@ == (CommandView::RequestPageRender {
            document_id: model@.tabs[model@.active_tab_index as int].id,
            page_index: page,
        }),
{
    AppCommand::RequestPageRender {
        document_id: model.tabs[model.active_tab_index].id,
        page_index: page,
    }
}

fn do_go_to_page(model: &mut AppModel, page: u32) -> (r: Option<AppCommand>)
    ensures
        (final(model)@, command_view(r)) == go_to_page(old(model)@, page),
{
    if model.active_tab_index < model.tabs.len() && page
        < model.tabs[model.active_tab_index].page_count {
        let command = render_command(model, page);
        set_active_page(model, page);
        Some(command)
    } else {
        None
    }
}

fn do_jump_to_page(model: &mut AppModel, page: u32) -> (r: Option<AppCommand>)
    ensures
        (final(model)@, command_view(r)) == jump_to_page(old(model)@, page),
{
    let a = model.active_tab_index;
    if a < model.tabs.len() && model.tabs[a].page_count > 0 {
        let count = model.tabs[a].page_count;
        let target = if page < count {
            page
        } else {
            count - 1
        };
        let command = render_command(model, target);
        set_active_page(model, target);
        Some(command)
    } else {
        None
    }
}

fn do_palette_toggle_zen(model: &mut AppModel) -> (r: Option<AppCommand>)
    ensures
        (final(model)@, command_view(r)) == palette_toggle_zen(old(model)@),
{
    model.zen_mode = !model.zen_mode;
    model.sidebar_open = !model.zen_mode && model.preferences.sidebar_visible;
    Some(AppCommand::SyncWindowChrome)
}

fn do_toggle_zen(model: &mut AppModel) -> (r: Option<AppCommand>)
    ensures
        (final(model)@, command_view(r)) == toggle_zen(old(model)@),
{
    model.zen_mode = !model.zen_mode;
    if model.zen_mode {
        model.sidebar_open = false;
    }
    Some(AppCommand::SyncWindowChrome)
}

fn do_set_tint(model: &mut AppModel, tint: PaperTintColor) -> (r: Option<AppCommand>)
    ensures
        (final(model)@, command_view(r)) == set_tint(old(model)@, tint),
{
    model.paper_tint = tint;
    model.preferences.paper_tint = tint.as_u8();
    Some(AppCommand::InvalidateCanvas)
}

fn do_set_zoom(model: &mut AppModel, mode: ZoomMode) -> (r: Option<AppCommand>)
    ensures
        (final(model)@, command_view(r)) == set_zoom(old(model)@, mode),
{
    model.zoom_mode = mode;
    model.preferences.zoom_mode = mode;
    Some(AppCommand::InvalidateCanvas)
}

/// Carries out a palette command: the palette closes, then the command takes effect.
pub fn apply_hud_action(model: &mut AppModel, action: HudAction) -> (r: Option<AppCommand>)
    ensures
        (final(model)@, command_view(r)) == hud_step(old(model)@, action),
{
    model.command_palette_open = false;
    match action {
        HudAction::GoToPage(page) => do_jump_to_page(model, page),
        HudAction::ToggleZen => do_palette_toggle_zen(model),
        HudAction::ToggleInvert => {
            model.preferences.invert_colors = !model.preferences.invert_colors;
            Some(AppCommand::InvalidateCanvas)
        },
        HudAction::SetPaperTint(tint) => do_set_tint(model, tint),
        HudAction::Print => Some(AppCommand::ExecutePrintDialog),
        HudAction::FitWidth => do_set_zoom(model, ZoomMode::FitWidth),
        HudAction::FitPage => do_set_zoom(model, ZoomMode::FitPage),
        HudAction::Unknown(command) => {
            let mut message = "Unknown command: ".to_string();
            push_text(&mut message, command.as_str());
            proof {
                reveal_strlit("Unknown command: ");
            }
            Some(AppCommand::ShowBanner { message, can_retry: false })
        },
        HudAction::Nothing => None,
    }
}

fn do_next_page(model: &mut AppModel) -> (r: Option<AppCommand>)
    ensures
        (final(model)@, command_view(r)) == step(old(model)@, Msg::NextPage),
{
    let a = model.active_tab_index;
    if a < model.tabs.len() && model.tabs[a].current_page < u32::MAX
        && model.tabs[a].current_page + 1 < model.tabs[a].page_count {
        let next = model.tabs[a].current_page + 1;
        let command = render_command(model, next);
        set_active_page(model, next);
        return Some(command);
    }
    None
}

fn do_previous_page(model: &mut AppModel) -> (r: Option<AppCommand>)
    ensures
        (final(model)@, command_view(r)) == step(old(model)@, Msg::PreviousPage),
{
    let a = model.active_tab_index;
    if a < model.tabs.len() && model.tabs[a].current_page > 0 {
        let previous = model.tabs[a].current_page - 1;
        let command = render_command(model, previous);
        set_active_page(model, previous);
        return Some(command);
    }
    None
}

fn do_toggle_palette(model: &mut AppModel) -> (r: Option<AppCommand>)
    ensures
        (final(model)@, command_view(r)) == step(old(model)@, Msg::ToggleCommandPalette),
{
    model.command_palette_open = !model.command_palette_open;
    if model.command_palette_open {
        model.command_palette_query = String::new();
    }
    None
}

fn do_scroll(model: &mut AppModel, bits: u32) -> (r: Option<AppCommand>)
    ensures
        (final(model)@, command_view(r)) == step(old(model)@, Msg::ScrollPositionChanged(bits)),
{
    let a = model.active_tab_index;
    if a < model.tabs.len() {
        let ghost m = model@;
        let ghost before = model.tabs@;
        let mut tab = model.tabs.remove(a);
        tab.scroll_y_bits = bits;
        model.tabs.insert(a, tab);
        proof {
            assert(model.tabs@ =~= before.update(a as int, model.tabs@[a as int]));
            assert(model@.tabs =~= m.tabs.update(
                a as int,
                TabModelView { scroll_y_bits: bits, ..m.tabs[a as int] },
            ));
        }
    }
    None
}

fn do_close_tab(model: &mut AppModel, index: usize) -> (r: Option<AppCommand>)
    ensures
        (final(model)@, command_view(r)) == step(old(model)@, Msg::CloseTab(index)),
{
    if index < model.tabs.len() {
        let ghost m = model@;
        let _ = model.tabs.remove(index);
        proof {
            assert(model@.tabs =~= m.tabs.remove(index as int));
        }
        if model.active_tab_index >= model.tabs.len() && model.tabs.len() > 0 {
            model.active_tab_index = model.tabs.len() - 1;
        }
        Some(AppCommand::SavePreferences)
    } else {
        None
    }
}

fn do_select_tab(model: &mut AppModel, index: usize) -> (r: Option<AppCommand>)
    ensures
        (final(model)@, command_view(r)) == step(old(model)@, Msg::SelectTab(index)),
{
    if index < model.tabs.len() {
        model.active_tab_index = index;
        model.preferences.active_tab_index = index;
        Some(AppCommand::InvalidateCanvas)
    } else {
        None
    }
}

fn do_unlock(model: &AppModel, password: String) -> (r: Option<AppCommand>)
    ensures
        command_view(r) == step(model@, Msg::UnlockPasswordSubmitted(password)).1,
{
    let a = model.active_tab_index;
    if a < model.tabs.len() {
        let path = model.tabs[a].path.clone();
        Some(AppCommand::OpenDocumentPath { path, password: Some(SecretPassword::new(password)) })
    } else {
        None
    }
}

/// One step of the view model: applies `msg` to `model` and answers the effect the window
/// is to carry out.
pub fn update(model: &mut AppModel, msg: Msg) -> (r: Option<AppCommand>)
    ensures
        match msg {
            Msg::ExecuteCommand(query) => exists|action: HudAction|
                #![trigger hud_action_for(action, query@)]
                hud_action_for(action, query@) && (final(model)@, command_view(r)) == hud_step(
                    old(model)@,
                    action,
                ),
            _ => (final(model)@, command_view(r)) == step(old(model)@, msg),
        },
{
    match msg {
        Msg::NextPage => do_next_page(model),
        Msg::PreviousPage => do_previous_page(model),
        Msg::GoToPage(page) => do_go_to_page(model, page),
        Msg::ToggleZenMode => do_toggle_zen(model),
        Msg::ToggleCommandPalette => do_toggle_palette(model),
        Msg::CommandPaletteQueryChanged(query) => {
            model.command_palette_query = query;
            None
        },
        Msg::ExecuteCommand(query) => {
            let action = hud_query_action(query.as_str());
            apply_hud_action(model, action)
        },
        Msg::SetPaperTint(tint) => do_set_tint(model, tint),
        Msg::SetViewingMode(mode) => {
            model.viewing_mode = mode;
            model.preferences.viewing_mode = mode;
            Some(AppCommand::InvalidateCanvas)
        },
        Msg::SetZoom(mode) => do_set_zoom(model, mode),
        Msg::ZoomIn => Some(AppCommand::InvalidateCanvas),
        Msg::ZoomOut => Some(AppCommand::InvalidateCanvas),
        Msg::RotateClockwise => Some(AppCommand::InvalidateCanvas),
        Msg::ScrollPositionChanged(bits) => do_scroll(model, bits),
        Msg::CloseTab(index) => do_close_tab(model, index),
        Msg::SelectTab(index) => do_select_tab(model, index),
        Msg::OpenDocument(path) => Some(AppCommand::OpenDocumentPath { path, password: None }),
        Msg::UnlockPasswordSubmitted(password) => do_unlock(model, password),
        Msg::UnlockPasswordCancelled => None,
        Msg::WindowResized { width, height } => {
            model.preferences.last_window_width = width;
            model.preferences.last_window_height = height;
            None
        },
    }
}

} // verus!
