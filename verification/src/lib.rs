//! Kron: an embeddable scheduler with an append-only history and a replicated server mode.

pub mod text;
pub mod strmap;
pub mod timestamp;
pub mod weekday;
pub mod error;
pub mod retry;
pub mod schedule;
pub mod clock;
pub mod timer;
pub mod event;
pub mod state;
pub mod heap;
pub mod engine;
pub mod snapshot;
pub mod paths;
pub mod log;
pub mod audit;
pub mod cluster;
pub mod openraft_adapter;
pub mod cluster_engine;
pub mod split;
pub mod ipc;
pub mod http;
pub mod client;
pub mod commands;
pub mod binding;
pub mod laws;
