use vstd::prelude::*;
use super::player_side::PlayerSide;

verus! {

/// A region of the table: one of the two reserves, or the pyramid in the
/// centre.
#[derive(Clone, Copy, Debug, PartialEq, Eq, Structural, Hash)]
pub enum BoardSide {
    White,
    Black,
    Center,
}

impl BoardSide {
    /// The reserve that holds the balls of `player`.
    pub open spec fn reserve_of(player: PlayerSide) -> BoardSide {
        match player {
            PlayerSide::White => BoardSide::White,
            PlayerSide::Black => BoardSide::Black,
        }
    }
}

} // verus!
