//! Navigation core of a desktop browser shell: input classification,
//! security gating and the ordered tab store, each with a verified contract.

pub mod config;
pub mod error;
pub mod logger;
pub mod retention;
pub mod runtime;
pub mod security;
pub mod tabs;
pub mod text;
pub mod url_model;
pub mod webview;
