//! The store, held in memory, and the passes that bring it up to date.

pub mod laws;
pub mod repo;
pub mod rules;
pub mod sync;
pub mod table;
