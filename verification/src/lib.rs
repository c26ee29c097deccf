//! Tanken: the state and decision logic of a dual-pane terminal file manager.

pub mod text;
pub mod order;
pub mod path;
pub mod platform;
pub mod fs;
pub mod pane;
pub mod tabs;
pub mod places;
pub mod bookmarks;
pub mod config;
pub mod input;
pub mod app;
pub mod preview;
pub mod search;
pub mod render;
pub mod mcp;
pub mod scripting;
