//! The records that the library, the notes and the store hold.

pub mod game;
pub mod notion;
pub mod steam;
