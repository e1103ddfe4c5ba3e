use vstd::prelude::*;
use super::ball::Ball;
use super::board::Board;
use super::board_side::BoardSide;
use super::index::{pyramid_cells, reserve_cells, Index};
use super::player_side::PlayerSide;
use super::position::{CellTest, Position};

verus! {

impl Position {
    /// Every cell of the table in the order of a snapshot: the white
    /// reserve, the black reserve, the pyramid.
    pub open spec fn all_cells() -> Seq<Index> {
        reserve_cells(BoardSide::White) + reserve_cells(BoardSide::Black) + pyramid_cells()
    }

    /// The ball at `c`, for an occupied cell `c`.
    pub open spec fn ball_at(self) -> spec_fn(Index) -> Ball {
        |c: Index| Ball { player: self.cells[c], index: c }
    }

    /// The balls on the table, in the order of a snapshot.
    pub open spec fn balls(self) -> Seq<Ball> {
        Position::all_cells().filter(self.test(CellTest::Full)).map_values(self.ball_at())
    }
}

/// A snapshot of a board for display: the counters, and the balls listed
/// reserve by reserve and then through the pyramid.
#[allow(non_snake_case)]
#[derive(Debug, PartialEq, Eq)]
pub struct BoardFrontend {
    pub nmove: u8,
    pub turn: PlayerSide,
    pub takeDownRule: u8,
    pub balls: Vec<Ball>,
    pub winner: Option<PlayerSide>,
}

impl Clone for BoardFrontend {
    /// A copy with the same counters and the same balls.
    fn clone(&self) -> (r: BoardFrontend)
        ensures
            r.nmove == self.nmove,
            r.turn == self.turn,
            r.takeDownRule == self.takeDownRule,
            r.winner == self.winner,
            r.balls@ == self.balls@,
    {
        let balls = self.balls.clone();
        assert(balls@ =~= self.balls@);
        BoardFrontend {
            nmove: self.nmove,
            turn: self.turn,
            takeDownRule: self.takeDownRule,
            balls,
            winner: self.winner,
        }
    }
}

impl BoardFrontend {
    /// The snapshot of `board`.
    pub fn new(board: Board) -> (r: BoardFrontend)
        ensures
            r.nmove == board@.move_number,
            r.turn == board@.turn,
            r.takeDownRule == board@.take_back,
            r.winner == board@.winner,
            r.balls@ == board@.balls(),
    {
        let mut cells = board.select(&Board::all_indices(BoardSide::White), CellTest::Full);
        let mut black = board.select(&Board::all_indices(BoardSide::Black), CellTest::Full);
        let mut center = board.select(&Board::all_indices(BoardSide::Center), CellTest::Full);
        cells.append(&mut black);
        cells.append(&mut center);
        proof {
            let full = board@.test(CellTest::Full);
            Seq::filter_distributes_over_add(
                reserve_cells(BoardSide::White),
                reserve_cells(BoardSide::Black),
                full,
            );
            Seq::filter_distributes_over_add(
                reserve_cells(BoardSide::White) + reserve_cells(BoardSide::Black),
                pyramid_cells(),
                full,
            );
            assert(cells@ == Position::all_cells().filter(full));
        }
        let mut balls: Vec<Ball> = Vec::new();
        let mut k: usize = 0;
        while k < cells.len()
            invariant
                0 <= k <= cells.len(),
                cells@ == Position::all_cells().filter(board@.test(CellTest::Full)),
                balls@ == cells@.take(k as int).map_values(board@.ball_at()),
            decreases cells.len() - k,
        {
            proof {
                crate::logic::seqs::lemma_filter_element(
                    Position::all_cells(),
                    board@.test(CellTest::Full),
                    k as int,
                );
            }
            match board.get(cells[k]) {
                Some(player) => {
                    balls.push(Ball { player, index: cells[k] });
                },
                None => {},
            }
            assert(cells@.take(k + 1).map_values(board@.ball_at()) =~= cells@.take(
                k as int,
            ).map_values(board@.ball_at()).push(board@.ball_at()(cells@[k as int])));
            k += 1;
        }
        assert(cells@.take(cells.len() as int) =~= cells@);
        BoardFrontend {
            nmove: board.get_move_number(),
            turn: board.get_turn(),
            takeDownRule: board.get_take_back(),
            balls,
            winner: board.get_winner(),
        }
    }
}

} // verus!
