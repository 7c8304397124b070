//! Usage and rate-limit bookkeeping for a Codex tray applet.
pub mod cache;
pub mod clock;
pub mod details;
pub mod double;
pub mod json;
pub mod limits;
pub mod mascot;
pub mod money;
pub mod notify;
pub mod page;
pub mod paths;
pub mod ranking;
pub mod render;
pub mod run;
pub mod sessions;
pub mod stats;
pub mod status;
pub mod text;
pub mod usage;
