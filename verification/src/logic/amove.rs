use vstd::prelude::*;
use super::ball::Ball;
use super::board_side::BoardSide;
use super::index::Index;
use super::player_side::PlayerSide;

verus! {

/// A move: the ball as it lies before, and the same ball as it lies after.
#[derive(Clone, Copy, Debug, PartialEq, Eq, Structural, Hash)]
pub struct Move {
    pub from: Ball,
    pub to: Ball,
}

impl Move {
    /// The move of a ball of `player` from one coordinate to another.
    pub open spec fn of(player: PlayerSide, from: Index, to: Index) -> Move {
        Move { from: Ball { player, index: from }, to: Ball { player, index: to } }
    }

    /// The move of a ball of `player` from `index_from` to `index_to`.
    pub fn new(player: PlayerSide, index_from: Index, index_to: Index) -> (r: Move)
        ensures
            r == Move::of(player, index_from, index_to),
    {
        Move {
            from: Ball { player, index: index_from },
            to: Ball { player, index: index_to },
        }
    }

    /// White, from the reserve cell `from` to the pyramid cell `to`.
    pub fn new_wrc(from: (i8, i8), to: (i8, i8, i8)) -> (r: Move)
        ensures
            r == Move::of(
                PlayerSide::White,
                Index { b: BoardSide::White, x: from.0, y: from.1, z: 0 },
                Index { b: BoardSide::Center, x: to.0, y: to.1, z: to.2 },
            ),
    {
        Move::new(
            PlayerSide::White,
            Index { b: BoardSide::White, x: from.0, y: from.1, z: 0 },
            Index { b: BoardSide::Center, x: to.0, y: to.1, z: to.2 },
        )
    }

    /// White, from the pyramid cell `from` to the reserve cell `to`.
    pub fn new_wcr(from: (i8, i8, i8), to: (i8, i8)) -> (r: Move)
        ensures
            r == Move::of(
                PlayerSide::White,
                Index { b: BoardSide::Center, x: from.0, y: from.1, z: from.2 },
                Index { b: BoardSide::White, x: to.0, y: to.1, z: 0 },
            ),
    {
        Move::new(
            PlayerSide::White,
            Index { b: BoardSide::Center, x: from.0, y: from.1, z: from.2 },
            Index { b: BoardSide::White, x: to.0, y: to.1, z: 0 },
        )
    }

    /// White, from the pyramid cell `from` to the pyramid cell `to`.
    pub fn new_wcc(from: (i8, i8, i8), to: (i8, i8, i8)) -> (r: Move)
        ensures
            r == Move::of(
                PlayerSide::White,
                Index { b: BoardSide::Center, x: from.0, y: from.1, z: from.2 },
                Index { b: BoardSide::Center, x: to.0, y: to.1, z: to.2 },
            ),
    {
        Move::new(
            PlayerSide::White,
            Index { b: BoardSide::Center, x: from.0, y: from.1, z: from.2 },
            Index { b: BoardSide::Center, x: to.0, y: to.1, z: to.2 },
        )
    }

    /// Black, from the reserve cell `from` to the pyramid cell `to`.
    pub fn new_brc(from: (i8, i8), to: (i8, i8, i8)) -> (r: Move)
        ensures
            r == Move::of(
                PlayerSide::Black,
                Index { b: BoardSide::Black, x: from.0, y: from.1, z: 0 },
                Index { b: BoardSide::Center, x: to.0, y: to.1, z: to.2 },
            ),
    {
        Move::new(
            PlayerSide::Black,
            Index { b: BoardSide::Black, x: from.0, y: from.1, z: 0 },
            Index { b: BoardSide::Center, x: to.0, y: to.1, z: to.2 },
        )
    }

    /// Black, from the pyramid cell `from` to the reserve cell `to`.
    pub fn new_bcr(from: (i8, i8, i8), to: (i8, i8)) -> (r: Move)
        ensures
            r == Move::of(
                PlayerSide::Black,
                Index { b: BoardSide::Center, x: from.0, y: from.1, z: from.2 },
                Index { b: BoardSide::Black, x: to.0, y: to.1, z: 0 },
            ),
    {
        Move::new(
            PlayerSide::Black,
            Index { b: BoardSide::Center, x: from.0, y: from.1, z: from.2 },
            Index { b: BoardSide::Black, x: to.0, y: to.1, z: 0 },
        )
    }

    /// Black, from the pyramid cell `from` to the pyramid cell `to`.
    pub fn new_bcc(from: (i8, i8, i8), to: (i8, i8, i8)) -> (r: Move)
        ensures
            r == Move::of(
                PlayerSide::Black,
                Index { b: BoardSide::Center, x: from.0, y: from.1, z: from.2 },
                Index { b: BoardSide::Center, x: to.0, y: to.1, z: to.2 },
            ),
    {
        Move::new(
            PlayerSide::Black,
            Index { b: BoardSide::Center, x: from.0, y: from.1, z: from.2 },
            Index { b: BoardSide::Center, x: to.0, y: to.1, z: to.2 },
        )
    }
}

} // verus!
