//! Reconciliation of a game catalogue across a library provider, a notes
//! provider and a local store, with the store held as verified in-memory
//! tables.

pub mod cli;
pub mod config;
pub mod db;
pub mod models;
pub mod notify;
pub mod notion;
pub mod steam;
pub mod text;
pub mod time;
