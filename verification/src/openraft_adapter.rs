//! The replicated log and the state machine behind it.

pub mod auth;
pub mod entry_log;
pub mod file_store;
pub mod network;
pub mod runtime;
pub mod segment;
