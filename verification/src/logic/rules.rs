use vstd::prelude::*;
use super::amove::Move;
use super::board::Board;
use super::position::MoveError;

verus! {

impl MoveError {
    /// The sentence that says what was wrong with the move.
    pub open spec fn sentence(self) -> Seq<char> {
        match self {
            MoveError::WrongColor => "Player is trying to move a ball of the opposite color"@,
            MoveError::GameOver => "The game is over"@,
            MoveError::NoSuchBall => "The ball does not exist"@,
            MoveError::Unsupported => "Not all parent exist"@,
            MoveError::Occupied => "The ball already exists"@,
            MoveError::InvalidTarget => "The target is not a cell for this ball"@,
            MoveError::IllegalTakeBack => "A ball must be taken back into the reserve"@,
        }
    }

    /// A sentence that says what was wrong with the move.
    pub fn message(&self) -> (r: &'static str)
        ensures
            r@ == self.sentence(),
    {
        match self {
            MoveError::WrongColor => "Player is trying to move a ball of the opposite color",
            MoveError::GameOver => "The game is over",
            MoveError::NoSuchBall => "The ball does not exist",
            MoveError::Unsupported => "Not all parent exist",
            MoveError::Occupied => "The ball already exists",
            MoveError::InvalidTarget => "The target is not a cell for this ball",
            MoveError::IllegalTakeBack => "A ball must be taken back into the reserve",
        }
    }
}

impl Board {
    /// Tells whether a ball of the mover may lie at the target of `mv`.
    fn target_may_hold(mv: Move) -> (r: bool)
        ensures
            r == super::position::Position::may_hold(mv.to.index, mv.to.player),
    {
        mv.to.index.is_in_pyramid() || (mv.to.index.is_in_reserve() && mv.to.index.b
            == Board::player_side_to_board_side(mv.to.player))
    }

    /// Checks `mv` against the rules, in their order, and names the first
    /// one that it breaks.
    pub fn validate_move(&self, mv: Move) -> (r: Result<(), MoveError>)
        ensures
            r == match self@.rejection(mv) {
                Some(e) => Err::<(), MoveError>(e),
                None => Ok(()),
            },
    {
        if !self.player_color_matches_ball_color(mv) {
            return Err(MoveError::WrongColor);
        }
        if self.is_game_over() {
            return Err(MoveError::GameOver);
        }
        if !self.ball_exists(mv.from) {
            return Err(MoveError::NoSuchBall);
        }
        if !self.all_parent_exist(mv.to.index) {
            return Err(MoveError::Unsupported);
        }
        if !self.is_index_empty(mv.to.index) {
            return Err(MoveError::Occupied);
        }
        if !Board::target_may_hold(mv) {
            return Err(MoveError::InvalidTarget);
        }
        let to_apex = mv.to.index.is_in_pyramid() && mv.to.index.z == 3;
        if !to_apex && self.take_back_rule() && !self.move_from_main_board_to_side_board(mv) {
            return Err(MoveError::IllegalTakeBack);
        }
        Ok(())
    }

    /// Hands the turn to the opponent, unless the opponent has no move.
    fn settle_turn(&mut self)
        ensures
            final(self)@ == old(self)@.settle_turn(),
    {
        if self.move_is_possible(self.get_turn().opponent()) {
            self.pass_turn();
        }
    }

    /// Tells whether `mv` is accepted and counts as one more move: whether
    /// it is an ordinary move that does not reach the apex.
    pub fn counts_a_move(&self, mv: Move) -> (r: bool)
        ensures
            r == self@.counts(mv),
    {
        let to_apex = mv.to.index.is_in_pyramid() && mv.to.index.z == 3;
        !self.take_back_rule() && !to_apex && self.validate_move(mv).is_ok()
    }

    /// Tells whether the move counter has room for what `mv` adds to it:
    /// a move may be played exactly if it has.
    pub fn has_room_for(&self, mv: Move) -> (r: bool)
        ensures
            r == self@.has_room(mv, u8::MAX as nat),
    {
        self.get_move_number() < u8::MAX || !self.counts_a_move(mv)
    }

    /// Plays `mv` if the rules accept it, and says which rule it breaks if
    /// not. A move that is turned down leaves the board as it was.
    ///
    /// The move counter is a byte: a move that counts must find room in
    /// it.
    ///
    /// A move to the apex wins the game and changes nothing else. Any
    /// other accepted move relocates the ball; see [`Position::after`]
    /// for what follows.
    ///
    /// [`Position::after`]: super::position::Position::after
    pub fn make_move(&mut self, mv: Move) -> (r: Result<(), MoveError>)
        requires
            old(self)@.has_room(mv, u8::MAX as nat),
        ensures
            match r {
                Ok(()) => old(self)@.rejection(mv) is None && final(self)@ == old(self)@.after(mv),
                Err(e) => old(self)@.rejection(mv) == Some(e) && *final(self) == *old(self),
            },
            r == match old(self)@.play(mv) {
                Ok(next) => Ok::<(), MoveError>(()),
                Err(e) => Err(e),
            },
    {
        match self.validate_move(mv) {
            Err(e) => {
                return Err(e);
            },
            Ok(()) => {},
        }
        if mv.to.index.is_in_pyramid() && mv.to.index.z == 3 {
            self.set_winner(mv.to.player);
            return Ok(());
        }
        if !self.take_back_rule() {
            self.increase_move_number();
            let removed = self.remove_ball(mv.from);
            let added = self.add_ball(mv.to);
            assert(removed && added);
            if self.square_is_formed(mv.to) {
                let bumped = self.bump_take_back_counter();
                assert(bumped);
            } else {
                self.settle_turn();
            }
        } else {
            let removed = self.remove_ball(mv.from);
            let added = self.add_ball(mv.to);
            let counted = self.decrease_take_back_counter();
            assert(removed && added && counted);
            if self.take_back_rule() && self.get_valid_moves().len() > 0 {
                return Ok(());
            }
            self.reset_take_back_counter();
            self.settle_turn();
        }
        Ok(())
    }
}

} // verus!
