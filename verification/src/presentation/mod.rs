pub mod callbacks;
pub mod event_pump;
pub mod hud_commands;
pub mod image_cache;
pub mod commands;
pub mod message;
pub mod model;
pub mod outline;
pub mod paths;
pub mod render_events;
pub mod text_geometry;
pub mod tools_panel;
pub mod ui;
pub mod update;
pub mod update_ui;
pub mod view_settings;
