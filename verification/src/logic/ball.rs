use vstd::prelude::*;
use super::board_side::BoardSide;
use super::index::Index;
use super::player_side::PlayerSide;

verus! {

/// A ball: its owner and the coordinate it lies at.
#[derive(Clone, Copy, Debug, PartialEq, Eq, Structural, Hash)]
pub struct Ball {
    pub player: PlayerSide,
    pub index: Index,
}

impl Ball {
    /// A ball of `player` at `index`.
    pub fn new(player: PlayerSide, index: Index) -> (r: Ball)
        ensures
            r == (Ball { player, index }),
    {
        Ball { player, index }
    }

    /// A white ball at `(x, y)` of the white reserve.
    pub fn new_wr(x: i8, y: i8) -> (r: Ball)
        ensures
            r == (Ball {
                player: PlayerSide::White,
                index: Index { b: BoardSide::White, x, y, z: 0 },
            }),
    {
        Ball::new(PlayerSide::White, Index { b: BoardSide::White, x, y, z: 0 })
    }

    /// A white ball at `(x, y, z)` of the pyramid.
    pub fn new_wc(x: i8, y: i8, z: i8) -> (r: Ball)
        ensures
            r == (Ball {
                player: PlayerSide::White,
                index: Index { b: BoardSide::Center, x, y, z },
            }),
    {
        Ball::new(PlayerSide::White, Index { b: BoardSide::Center, x, y, z })
    }

    /// A black ball at `(x, y)` of the black reserve.
    pub fn new_br(x: i8, y: i8) -> (r: Ball)
        ensures
            r == (Ball {
                player: PlayerSide::Black,
                index: Index { b: BoardSide::Black, x, y, z: 0 },
            }),
    {
        Ball::new(PlayerSide::Black, Index { b: BoardSide::Black, x, y, z: 0 })
    }

    /// A black ball at `(x, y, z)` of the pyramid.
    pub fn new_bc(x: i8, y: i8, z: i8) -> (r: Ball)
        ensures
            r == (Ball {
                player: PlayerSide::Black,
                index: Index { b: BoardSide::Center, x, y, z },
            }),
    {
        Ball::new(PlayerSide::Black, Index { b: BoardSide::Center, x, y, z })
    }
}

} // verus!
