//! The game itself: coordinates, balls, moves, the board and the search
//! that picks moves for a computer-controlled side.
//!
//! The modules are listed in the order in which they build on each other.

pub mod player_side;
pub mod board_side;
pub mod index;
pub mod ball;
pub mod amove;
pub mod seqs;
pub mod position;
pub mod board;
pub mod geometry;
pub mod queries;
pub mod movegen;
pub mod rules;
pub mod laws;
pub mod key;
pub mod search;
pub mod search_laws;
pub mod ai;
pub mod frontend;
pub mod text;
pub mod census;
