pub mod update_controller;
pub mod state;
pub mod tabs;
pub mod document_controller;
