use vstd::prelude::*;
use crate::clock::{utc_now, Timestamp};

verus! {

/// How far a match has come.
#[derive(Clone, Copy, Debug, PartialEq, Eq, Structural)]
pub enum GameState {
    Pending,
    InProgress,
    Completed,
}

/// What is recorded of a match besides its board.
#[derive(Clone, Copy, Debug, PartialEq, Eq, Structural)]
pub struct GameMeta {
    pub status: GameState,
    pub created_at: Timestamp,
    pub last_move_at: Option<Timestamp>,
}

impl GameMeta {
    /// The record of a match created at `now`, with no move made.
    pub fn pending_at(now: Timestamp) -> (r: GameMeta)
        ensures
            r == (GameMeta { status: GameState::Pending, created_at: now, last_move_at: None }),
    {
        GameMeta { status: GameState::Pending, created_at: now, last_move_at: None }
    }

    /// The record of a match created now, with no move made.
    pub fn new_pending() -> (r: GameMeta)
        ensures
            r.status == GameState::Pending,
            r.last_move_at is None,
    {
        GameMeta::pending_at(utc_now())
    }

    /// Records that the last move was made at `now`.
    pub fn set_last_move_at(&mut self, now: Timestamp)
        ensures
            *final(self) == (GameMeta { last_move_at: Some(now), ..*old(self) }),
    {
        self.last_move_at = Some(now);
    }

    /// Records that the last move was made now.
    pub fn update_last_move_at(&mut self)
        ensures
            final(self).status == old(self).status,
            final(self).created_at == old(self).created_at,
            final(self).last_move_at is Some,
    {
        self.set_last_move_at(utc_now());
    }

    /// Records that both seats are taken.
    pub fn promote_to_in_progress(&mut self)
        ensures
            *final(self) == (GameMeta { status: GameState::InProgress, ..*old(self) }),
    {
        self.status = GameState::InProgress;
    }

    /// Records that the game is won.
    pub fn promote_to_completed(&mut self)
        ensures
            *final(self) == (GameMeta { status: GameState::Completed, ..*old(self) }),
    {
        self.status = GameState::Completed;
    }
}

} // verus!
