//! The parts that a run goes through.

pub mod auth;
pub mod env;
pub mod error;
pub mod fg_handler;
pub mod fork_sync;
pub mod passwd;
pub mod path;
pub mod proc;
pub mod sig_handler;
pub mod signal;
pub mod signal_recv;
pub mod user;
