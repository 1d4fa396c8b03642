//! Isolated Codex profiles: the verified core of a profile switcher.

pub mod codex;
pub mod config;
pub mod error;
pub mod listing;
pub mod paths;
pub mod permissions;
pub mod profile;
pub mod report;
pub mod store;
pub mod text;
