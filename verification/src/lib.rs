//! Logic of a desktop UI-automation inspector: element paths, shortcut
//! bookkeeping, hotkey parsing and matching, and the rendering of element
//! properties.

pub mod text;
pub mod node_path;
pub mod models;
pub mod hotkeys;
pub mod store;
pub mod utils;
pub mod uia;
pub mod windows_api;
pub mod overlay;
pub mod activation;
