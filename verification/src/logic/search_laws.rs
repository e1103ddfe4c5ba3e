use vstd::prelude::*;
use super::amove::Move;
use super::laws::lemma_legal_moves_are_accepted;
use super::player_side::PlayerSide;
use super::position::Position;
use super::search::{
    branching, computer_move, computer_turn, counter_limit, decide, explore, last_best,
    lemma_last_best, search, Entry, FUEL, MOVE_CAP,
};

verus! {

/// The search of candidates gives one score for each.
pub proof fn lemma_one_score_each(
    p: Position,
    side: PlayerSide,
    fuel: int,
    candidates: Seq<Move>,
    memo: Map<u128, Entry>,
)
    ensures
        explore(p, side, fuel, candidates, memo).scores.len() == candidates.len(),
    decreases candidates.len(),
{
    if candidates.len() > 0 {
        lemma_one_score_each(p, side, fuel, candidates.drop_last(), memo);
    }
}

/// A search looks at one candidate at least and at no more than there
/// are.
pub proof fn lemma_branching_bounds(fuel: int, moves: int)
    requires
        moves >= 1,
    ensures
        1 <= branching(fuel, moves) <= moves,
{
}

/// The move that a search chooses for a position it does not remember is
/// one of the moves open there.
pub proof fn lemma_choice_is_listed(
    p: Position,
    side: PlayerSide,
    fuel: int,
    memo: Map<u128, Entry>,
)
    requires
        !memo.contains_key(p.memo_key()),
    ensures
        search(p, side, fuel, memo).best matches Some(mv) ==> p.legal_moves().contains(mv),
{
    let moves = p.legal_moves();
    if p.move_number > MOVE_CAP || fuel <= 0 || moves.len() == 0 {
        if moves.len() > 0 {
            assert(moves[0] == moves[0]);
        }
    } else if p.winner is None {
        let n = branching(fuel, moves.len() as int);
        let brood = explore(p, side, fuel / n - 1, moves.take(n), memo);
        lemma_one_score_each(p, side, fuel / n - 1, moves.take(n), memo);
        lemma_last_best(brood.scores);
        assert(moves[last_best(brood.scores)] == moves[last_best(brood.scores)]);
    }
}

/// In an open game the computer decides on a move exactly if one is open,
/// and the move it decides on is one that the rules accept.
pub proof fn lemma_decision_is_accepted(p: Position, side: PlayerSide)
    requires
        p.wf(),
        p.winner is None,
    ensures
        decide(p, side) is Some <==> p.legal_moves().len() > 0,
        decide(p, side) matches Some(mv) ==> p.legal_moves().contains(mv) && p.rejection(mv)
            is None,
        (p.turn == side && p.move_number < counter_limit()) ==> computer_move(p, side)
            == decide(p, side),
{
    let memo = Map::<u128, Entry>::empty();
    lemma_choice_is_listed(p, side, FUEL as int, memo);
    if let Some(mv) = decide(p, side) {
        let k = choose|k: int| 0 <= k < p.legal_moves().len() && p.legal_moves()[k] == mv;
        lemma_legal_moves_are_accepted(p, k);
    }
}

/// Where one move only is open, in an open game, the computer decides on
/// that move.
pub proof fn lemma_single_move_is_chosen(p: Position, side: PlayerSide)
    requires
        p.winner is None,
        p.legal_moves().len() == 1,
    ensures
        decide(p, side) == Some(p.legal_moves()[0]),
{
    let moves = p.legal_moves();
    let memo = Map::<u128, Entry>::empty();
    let fuel = FUEL as int;
    if !(p.move_number > MOVE_CAP) {
        let n = branching(fuel, 1);
        let brood = explore(p, side, fuel / n - 1, moves.take(n), memo);
        lemma_one_score_each(p, side, fuel / n - 1, moves.take(n), memo);
        lemma_last_best(brood.scores);
    }
}

/// The computer hands over only when it is no more its turn, the game is
/// won, no move is open to it, or the move counter is full.
pub proof fn lemma_computer_turn_ends(p: Position, side: PlayerSide)
    requires
        p.wf(),
        p.move_number <= counter_limit(),
    ensures
        ({
            let q = computer_turn(p, side);
            q.turn != side || q.winner is Some || q.legal_moves().len() == 0 || q.move_number
                >= counter_limit()
        }),
        computer_turn(p, side).wf(),
    decreases
            (if p.winner is None {
                1nat
            } else {
                0nat
            }),
            (counter_limit() - p.move_number) as nat,
            p.take_back,
{
    if p.winner is None {
        lemma_decision_is_accepted(p, side);
        match computer_move(p, side) {
            Some(mv) => {
                super::laws::lemma_after_keeps_wf(p, mv);
                lemma_computer_turn_ends(p.after(mv), side);
            },
            None => {},
        }
    }
}

} // verus!
