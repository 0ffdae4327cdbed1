//! What the operations of this library are for, stated without regard to how they are defined.
pub mod chat;
pub mod client;
pub mod config;
pub mod conversation;
pub mod error;
pub mod history;
pub mod plan;
pub mod process;
pub mod prompt;
pub mod session;
pub mod text;
