//! What holds of the library as a whole, by subject.

pub mod access;
pub mod audit;
pub mod binding;
pub mod claims;
pub mod cron;
pub mod engine;
pub mod json;
pub mod log;
pub mod names;
pub mod server;
pub mod state;
pub mod store;
pub mod text;
pub mod time;
pub mod web;
