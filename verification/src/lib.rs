//! Rules engine and computer opponent for a two-player pyramid-stacking
//! board game: thirty balls, two reserves and a four-level square pyramid.
//!
//! * [`logic`] holds the game: coordinates, balls and moves; the
//!   [`Position`](logic::position::Position), which is the mathematical
//!   value that every contract speaks of; the
//!   [`Board`](logic::board::Board), which plays moves and lists the moves
//!   open; the laws of the game, proved of every position; and the search
//!   by which the computer picks its moves.
//! * [`state`] holds a match around the board: who takes part and in what
//!   role, how the match was set up, and the record of how far it has come.
//! * [`chance`] and [`clock`] are the two places where random numbers and
//!   the time of day come in.

pub mod chance;
pub mod clock;
pub mod logic;
pub mod state;
