use vstd::prelude::*;
use super::game::Game;
use super::game_meta::{GameMeta, GameState};
use crate::clock::Timestamp;
use crate::logic::ai::AI;
use crate::logic::amove::Move;
use crate::logic::board::Board;
use crate::logic::player_side::PlayerSide;
use crate::logic::position::{MoveError, Position};
use crate::logic::search::computer_move;

verus! {

/// The record after a move made at `now` that led to the position `p`:
/// the time of the move is noted, and a won game is completed.
pub open spec fn recorded(meta: GameMeta, p: Position, now: Timestamp) -> GameMeta {
    GameMeta {
        status: if p.winner is Some {
            GameState::Completed
        } else {
            meta.status
        },
        last_move_at: Some(now),
        ..meta
    }
}

/// Notes in `meta` that a move was made at `now`, and that the game is
/// completed if `board` has a winner.
pub fn record_move(meta: &mut GameMeta, board: &Board, now: Timestamp)
    ensures
        *final(meta) == recorded(*old(meta), board@, now),
{
    meta.set_last_move_at(now);
    if board.is_game_over() {
        meta.promote_to_completed();
    }
}

/// The move of a human, made at `now`: plays `mv` on `board` if the rules
/// accept it, and then notes it in `meta`. A move that is turned down
/// changes neither the board nor the record.
pub fn human_move(board: &mut Board, meta: &mut GameMeta, mv: Move, now: Timestamp) -> (r: Result<
    (),
    MoveError,
>)
    requires
        old(board)@.has_room(mv, u8::MAX as nat),
    ensures
        match r {
            Ok(()) => {
                &&& old(board)@.rejection(mv) is None
                &&& final(board)@ == old(board)@.after(mv)
                &&& *final(meta) == recorded(*old(meta), old(board)@.after(mv), now)
            },
            Err(e) => {
                &&& old(board)@.rejection(mv) == Some(e)
                &&& *final(board) == *old(board)
                &&& *final(meta) == *old(meta)
            },
        },
{
    match board.make_move(mv) {
        Ok(()) => {
            record_move(meta, board, now);
            Ok(())
        },
        Err(e) => Err(e),
    }
}

/// Tells whether the computer is to move on `board`: whether the seat of
/// the player to move is the computer's, and the game is open.
pub fn computer_is_due(game: &Game, board: &Board) -> (r: Option<PlayerSide>)
    ensures
        r == if game@.seat(board@.turn) matches Some(seat) && seat.kind
            == super::game_configuration::PlayerType::Computer {
            game@.ai_color()
        } else {
            None
        },
{
    if game.computer_is_to_move(board.get_turn()) {
        game.get_ai_color()
    } else {
        None
    }
}

/// One step of the computer's turn: if the computer `ai_side` has a move
/// to play on `board`, plays it and tells so. The caller sends the board
/// out and comes back for the next step, until none is made.
pub fn computer_step(board: &mut Board, ai_side: PlayerSide) -> (played: bool)
    ensures
        match computer_move(old(board)@, ai_side) {
            Some(mv) => played && final(board)@ == old(board)@.after(mv),
            None => !played && *final(board) == *old(board),
        },
{
    let mut ai = AI { side: ai_side, board: *board };
    match ai.make_minmax_move() {
        Some(next) => {
            *board = next;
            true
        },
        None => false,
    }
}

} // verus!
