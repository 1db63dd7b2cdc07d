pub mod bookmark_controller;
pub mod navigation_controller;
pub mod search_controller;
pub mod tab_controller;
