//! Token-frugal YouTrack client: the verified core.

pub mod client;
pub mod command;
pub mod config;
pub mod date;
pub mod failure;
pub mod fields;
pub mod json;
pub mod laws_fields;
pub mod laws_issue;
pub mod laws_lists;
pub mod laws_local;
pub mod laws_read;
pub mod laws_shown;
pub mod laws_text;
pub mod laws_update;
pub mod laws_write;
pub mod line;
pub mod local;
pub mod lookup;
pub mod number;
pub mod paths;
pub mod report;
pub mod session;
pub mod sorted;
pub mod style;
pub mod text;
pub mod update;
pub mod wire;
