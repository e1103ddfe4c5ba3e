use vstd::prelude::*;
use super::amove::Move;
use super::ball::Ball;
use super::board::Board;
use super::board_side::BoardSide;
use super::index::Index;
use super::player_side::PlayerSide;
use super::position::{CellTest, Position};
use super::seqs::lemma_filter_step;

verus! {

impl Board {
    /// Tells whether the cell `c` passes the test `t` on this board.
    pub fn passes(&self, t: CellTest, c: Index) -> (r: bool)
        ensures
            r == self@.passes(t, c),
    {
        match t {
            CellTest::Free => self.is_index_empty(c) && self.all_parent_exist(c),
            CellTest::Loose(player) => self.get(c) == Some(player) && !self.child_exists(c),
            CellTest::Full => self.is_index_full(c),
            CellTest::Gap => self.is_index_empty(c),
            CellTest::ClimbFrom(from) => from.z < c.z && !Board::is_child_index(from, c),
        }
    }

    /// Those of `cells` that pass the test `t`, in the order given.
    pub fn select(&self, cells: &Vec<Index>, t: CellTest) -> (r: Vec<Index>)
        ensures
            r@ == cells@.filter(self@.test(t)),
    {
        let mut r: Vec<Index> = Vec::new();
        let mut k: usize = 0;
        proof {
            if cells.len() > 0 {
                lemma_filter_step(cells@, self@.test(t), 0);
            } else {
                super::seqs::lemma_filter_empty(self@.test(t));
                assert(cells@.take(0) =~= Seq::<Index>::empty());
            }
        }
        while k < cells.len()
            invariant
                0 <= k <= cells.len(),
                r@ == cells@.take(k as int).filter(self@.test(t)),
            decreases cells.len() - k,
        {
            proof {
                lemma_filter_step(cells@, self@.test(t), k as int);
            }
            if self.passes(t, cells[k]) {
                r.push(cells[k]);
            }
            k += 1;
        }
        assert(cells@.take(cells.len() as int) =~= cells@);
        r
    }

    /// The free cells of the pyramid: empty, with every cell beneath
    /// occupied.
    pub fn free_cells(&self) -> (r: Vec<Index>)
        ensures
            r@ == self@.free_cells(),
    {
        self.select(&Board::all_indices(BoardSide::Center), CellTest::Free)
    }

    /// The cells of the pyramid balls of `player` with nothing resting on
    /// them.
    pub fn loose_balls(&self, player: PlayerSide) -> (r: Vec<Index>)
        ensures
            r@ == self@.loose_balls(player),
    {
        self.select(&Board::all_indices(BoardSide::Center), CellTest::Loose(player))
    }

    /// The occupied cells of the reserve of `player`.
    pub fn reserve_balls(&self, player: PlayerSide) -> (r: Vec<Index>)
        ensures
            r@ == self@.reserve_balls(player),
    {
        self.select(
            &Board::all_indices(Board::player_side_to_board_side(player)),
            CellTest::Full,
        )
    }

    /// The empty cells of the reserve of `player`.
    pub fn reserve_gaps(&self, player: PlayerSide) -> (r: Vec<Index>)
        ensures
            r@ == self@.reserve_gaps(player),
    {
        self.select(&Board::all_indices(Board::player_side_to_board_side(player)), CellTest::Gap)
    }

    /// Appends to `out` the moves of a ball of `player` from `from` to each
    /// of `targets`.
    fn push_moves_to(out: &mut Vec<Move>, player: PlayerSide, from: Index, targets: &Vec<Index>)
        ensures
            final(out)@ == old(out)@ + targets@.map_values(Position::move_to(player, from)),
    {
        let mut k: usize = 0;
        while k < targets.len()
            invariant
                0 <= k <= targets.len(),
                out@ == old(out)@ + targets@.take(k as int).map_values(
                    Position::move_to(player, from),
                ),
            decreases targets.len() - k,
        {
            out.push(Move::new(player, from, targets[k]));
            assert(targets@.take(k + 1).map_values(Position::move_to(player, from))
                =~= targets@.take(k as int).map_values(Position::move_to(player, from)).push(
                Move::of(player, from, targets@[k as int]),
            ));
            k += 1;
        }
        assert(targets@.take(targets.len() as int) =~= targets@);
    }

    /// The moves of a ball of `player` from each of `origins` to `to`.
    fn moves_from(player: PlayerSide, origins: &Vec<Index>, to: Index) -> (r: Vec<Move>)
        ensures
            r@ == origins@.map_values(Position::move_from(player, to)),
    {
        let mut r: Vec<Move> = Vec::new();
        let mut k: usize = 0;
        while k < origins.len()
            invariant
                0 <= k <= origins.len(),
                r@ == origins@.take(k as int).map_values(Position::move_from(player, to)),
            decreases origins.len() - k,
        {
            r.push(Move::new(player, origins[k], to));
            assert(origins@.take(k + 1).map_values(Position::move_from(player, to))
                =~= origins@.take(k as int).map_values(Position::move_from(player, to)).push(
                Move::of(player, origins@[k as int], to),
            ));
            k += 1;
        }
        assert(origins@.take(origins.len() as int) =~= origins@);
        r
    }

    /// The moves that bring the first reserve ball of the player to move
    /// onto a free cell.
    pub fn placements(&self) -> (r: Vec<Move>)
        ensures
            r@ == self@.placements(),
    {
        let mut r: Vec<Move> = Vec::new();
        let in_reserve = self.reserve_balls(self.get_turn());
        if in_reserve.len() > 0 {
            let free = self.free_cells();
            Board::push_moves_to(&mut r, self.get_turn(), in_reserve[0], &free);
            assert(r@ =~= self@.placements());
        }
        r
    }

    /// The moves that lift a loose ball of the player to move onto a free
    /// cell that lies higher and does not rest on it.
    pub fn climbs(&self) -> (r: Vec<Move>)
        ensures
            r@ == self@.climbs(),
    {
        let mut r: Vec<Move> = Vec::new();
        let free = self.free_cells();
        let loose = self.loose_balls(self.get_turn());
        let ghost per_ball = self@.climbs_from_fn();
        let mut j: usize = 0;
        assert(loose@.take(0).map_values(per_ball) =~= Seq::<Seq<Move>>::empty());
        while j < loose.len()
            invariant
                0 <= j <= loose.len(),
                free@ == self@.free_cells(),
                per_ball == self@.climbs_from_fn(),
                r@ == loose@.take(j as int).map_values(per_ball).flatten(),
            decreases loose.len() - j,
        {
            let from = loose[j];
            let targets = self.select(&free, CellTest::ClimbFrom(from));
            proof {
                let done = loose@.take(j as int).map_values(per_ball);
                assert(loose@.take(j + 1).map_values(per_ball) =~= done.push(
                    per_ball(loose@[j as int]),
                ));
                done.lemma_flatten_push(per_ball(loose@[j as int]));
            }
            Board::push_moves_to(&mut r, self.get_turn(), from, &targets);
            j += 1;
        }
        assert(loose@.take(loose.len() as int) =~= loose@);
        r
    }

    /// The bonus removals: each loose ball of the player to move, to the
    /// first empty cell of the player's reserve.
    pub fn removals(&self) -> (r: Vec<Move>)
        ensures
            r@ == self@.removals(),
    {
        let gaps = self.reserve_gaps(self.get_turn());
        if gaps.len() == 0 {
            return Vec::new();
        }
        let loose = self.loose_balls(self.get_turn());
        Board::moves_from(self.get_turn(), &loose, gaps[0])
    }

    /// The moves open to the player to move, in generation order: while a
    /// bonus removal is due, the removals; otherwise the placements, then
    /// the climbs.
    pub fn get_valid_moves(&self) -> (r: Vec<Move>)
        ensures
            r@ == self@.legal_moves(),
    {
        if self.take_back_rule() {
            self.removals()
        } else {
            let mut r = self.placements();
            let mut up = self.climbs();
            r.append(&mut up);
            r
        }
    }

    /// Tells whether a bonus removal is open to `player`: whether some
    /// pyramid ball of `player` has nothing resting on it.
    pub fn take_back_is_possible(&self, player: PlayerSide) -> (r: bool)
        ensures
            r == (self@.loose_balls(player).len() > 0),
    {
        self.loose_balls(player).len() > 0
    }

    /// How many balls `player` still has in reserve.
    pub fn number_of_balls_in_reserve(&self, player: PlayerSide) -> (r: usize)
        ensures
            r == self@.reserve_count(player),
    {
        self.reserve_balls(player).len()
    }

    /// Tells whether `player` still has a ball in reserve.
    pub fn has_ball_in_reserve(&self, player: PlayerSide) -> (r: bool)
        ensures
            r == (self@.reserve_count(player) > 0),
    {
        self.number_of_balls_in_reserve(player) > 0
    }

    /// Tells whether `player` could lift a ball, were it that player's
    /// turn.
    pub fn move_up_is_possible(&self, player: PlayerSide) -> (r: bool)
        ensures
            r == (self@.with_turn(player).climbs().len() > 0),
    {
        self.with_turn(player).climbs().len() > 0
    }

    /// Tells whether `player` would have a move, were it that player's
    /// turn.
    pub fn move_is_possible(&self, player: PlayerSide) -> (r: bool)
        ensures
            r == self@.can_move(player),
    {
        self.with_turn(player).get_valid_moves().len() > 0
    }

    /// Where the ball may go: the targets of the moves open to the player
    /// to move that move this very ball, in generation order.
    pub fn get_ghost_balls(&self, ball: Ball) -> (r: Vec<Ball>)
        ensures
            r@ == self@.targets_of(ball),
    {
        let moves = self.get_valid_moves();
        let ghost of_ball = Position::moves_of(ball);
        let ghost target = Position::target();
        let mut r: Vec<Ball> = Vec::new();
        let mut k: usize = 0;
        proof {
            if moves.len() > 0 {
                lemma_filter_step(moves@, of_ball, 0);
            } else {
                super::seqs::lemma_filter_empty(of_ball);
                assert(moves@.take(0) =~= Seq::<Move>::empty());
            }
            assert(Seq::<Move>::empty().map_values(target) =~= Seq::<Ball>::empty());
        }
        while k < moves.len()
            invariant
                0 <= k <= moves.len(),
                of_ball == Position::moves_of(ball),
                target == Position::target(),
                r@ == moves@.take(k as int).filter(of_ball).map_values(target),
            decreases moves.len() - k,
        {
            proof {
                lemma_filter_step(moves@, of_ball, k as int);
                let kept = moves@.take(k as int).filter(of_ball);
                assert(kept.push(moves@[k as int]).map_values(target) =~= kept.map_values(
                    target,
                ).push(moves@[k as int].to));
            }
            if moves[k].from == ball {
                r.push(moves[k].to);
            }
            k += 1;
        }
        assert(moves@.take(moves.len() as int) =~= moves@);
        r
    }
}

} // verus!
