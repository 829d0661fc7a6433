//! Verified core of the snout Rime updater: text formats, download planning,
//! deployment decisions, model and theme patches, and the TUI state machine.

pub mod api;
pub mod deployer;
pub mod download;
pub mod fcitx5;
pub mod model_patch;
pub mod numfmt;
pub mod platform;
pub mod schema;
pub mod text;
pub mod ui;
pub mod updater;
