//! The decisions of `ai`, a command that turns natural-language requests into shell commands.
pub mod bytes;
pub mod chat;
pub mod client;
pub mod config;
pub mod conversation;
pub mod error;
pub mod history;
pub mod json;
pub mod json_laws;
pub mod laws;
pub mod plan;
pub mod process;
pub mod prompt;
pub mod session;
pub mod text;
