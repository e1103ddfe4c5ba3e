use vstd::prelude::*;
use super::amove::Move;
use super::ball::Ball;
use super::board::Board;
use super::index::Index;
use super::player_side::PlayerSide;

verus! {

impl Board {
    /// The ball at `index`, if one lies there.
    pub fn get_ball(&self, index: Index) -> (r: Option<Ball>)
        ensures
            r == match self@.owner(index) {
                Some(player) => Some(Ball { player, index }),
                None => None,
            },
    {
        match self.get(index) {
            Some(player) => Some(Ball { player, index }),
            None => None,
        }
    }

    /// Tells whether no ball lies at `index`.
    pub fn is_index_empty(&self, index: Index) -> (r: bool)
        ensures
            r == !self@.occupied(index),
    {
        self.get(index).is_none()
    }

    /// Tells whether a ball lies at `index`.
    pub fn is_index_full(&self, index: Index) -> (r: bool)
        ensures
            r == self@.occupied(index),
    {
        self.get(index).is_some()
    }

    /// Tells whether a ball rests on the cell `index`.
    pub fn child_exists(&self, index: Index) -> (r: bool)
        ensures
            r == self@.covered(index),
    {
        let children = Board::child_indices(index);
        let mut k: usize = 0;
        while k < children.len()
            invariant
                0 <= k <= children.len(),
                children@ == index.children(),
                forall|j: int| 0 <= j < k ==> !self@.occupied(#[trigger] index.children()[j]),
            decreases children.len() - k,
        {
            if self.is_index_full(children[k]) {
                return true;
            }
            k += 1;
        }
        false
    }

    /// Tells whether every cell beneath `index` holds a ball.
    pub fn all_parent_exist(&self, index: Index) -> (r: bool)
        ensures
            r == self@.supported(index),
    {
        let parents = Board::parent_indices(index);
        let mut k: usize = 0;
        while k < parents.len()
            invariant
                0 <= k <= parents.len(),
                parents@ == index.parents(),
                forall|j: int| 0 <= j < k ==> self@.occupied(#[trigger] index.parents()[j]),
            decreases parents.len() - k,
        {
            if !self.is_index_full(parents[k]) {
                return false;
            }
            k += 1;
        }
        true
    }

    /// Tells whether nothing rests on the cell `index`.
    pub fn no_children_exist(&self, index: Index) -> (r: bool)
        ensures
            r == !self@.covered(index),
    {
        !self.child_exists(index)
    }

    /// Tells whether the ball lies on the board exactly as given.
    pub fn ball_exists(&self, ball: Ball) -> (r: bool)
        ensures
            r == self@.has_ball(ball),
    {
        match self.get(ball.index) {
            Some(player) => player == ball.player,
            None => false,
        }
    }

    /// Tells whether both ends of the move name the player to move.
    pub fn player_color_matches_ball_color(&self, mv: Move) -> (r: bool)
        ensures
            r == (mv.from.player == self@.turn && mv.to.player == self@.turn),
    {
        self.get_turn() == mv.from.player && self.get_turn() == mv.to.player
    }

    /// Tells whether the move goes from the pyramid into the reserve of
    /// the player to move.
    pub fn move_from_main_board_to_side_board(&self, mv: Move) -> (r: bool)
        ensures
            r == self@.is_removal(mv),
    {
        let players_board_side = Board::player_side_to_board_side(self.get_turn());
        mv.from.index.b == super::board_side::BoardSide::Center && mv.to.index.b
            == players_board_side
    }

    /// Tells whether every one of `indices` holds a ball of `color`.
    pub fn same_color_balls(&self, indices: &Vec<Index>, color: PlayerSide) -> (r: bool)
        ensures
            r == self@.all_owned_by(indices@, color),
    {
        let mut k: usize = 0;
        while k < indices.len()
            invariant
                0 <= k <= indices.len(),
                forall|j: int| 0 <= j < k ==> self@.owner(#[trigger] indices@[j]) == Some(color),
            decreases indices.len() - k,
        {
            if self.get(indices[k]) != Some(color) {
                return false;
            }
            k += 1;
        }
        true
    }

    /// Tells whether the ball completes a square of the player to move:
    /// whether some cell that rests on it has all four cells beneath it
    /// held by that player.
    pub fn square_is_formed(&self, ball: Ball) -> (r: bool)
        ensures
            r == self@.forms_square(ball.index, self@.turn),
    {
        let children = Board::child_indices(ball.index);
        let mut k: usize = 0;
        while k < children.len()
            invariant
                0 <= k <= children.len(),
                children@ == ball.index.children(),
                forall|j: int|
                    0 <= j < k ==> !self@.all_owned_by(
                        (#[trigger] ball.index.children()[j]).parents(),
                        self@.turn,
                    ),
            decreases children.len() - k,
        {
            let beneath = Board::parent_indices(children[k]);
            if self.same_color_balls(&beneath, self.get_turn()) {
                return true;
            }
            k += 1;
        }
        false
    }

    /// Tells whether the game has a winner.
    pub fn is_game_over(&self) -> (r: bool)
        ensures
            r == (self@.winner is Some),
    {
        self.get_winner().is_some()
    }
}

} // verus!
