//! Bookmarks: a verified core for a filesystem bookmark manager.

pub mod strings;
pub mod text;
pub mod order;
pub mod config;
pub mod html;
pub mod render;
pub mod webapp;
pub mod cli;
pub mod desktop;
pub mod open;
pub mod json;
