//! A match around the board: who takes part, how it was set up, and how
//! far it has come.
//!
//! The modules are listed in the order in which they build on each other.

pub mod user_uuid;
pub mod game_configuration;
pub mod game_meta;
pub mod game;
pub mod session;
