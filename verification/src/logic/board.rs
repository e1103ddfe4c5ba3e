use vstd::prelude::*;
use crate::logic::ball::Ball;
use crate::logic::board_side::BoardSide;
use crate::logic::index::Index;
use crate::logic::player_side::PlayerSide;
use crate::logic::position::Position;

verus! {

/// The board of one game: where the balls lie, whose turn it is, how many
/// bonus removals are owed, and who has won.
///
/// Its mathematical value is the [`Position`] that `view` gives; every
/// contract speaks of that value.
#[derive(Clone, Copy, Debug, PartialEq, Eq, Hash)]
pub struct Board {
    move_number: u8,
    turn: PlayerSide,
    take_back: u8,
    white_reserve: [bool; 15],
    black_reserve: [bool; 15],
    main_board: [Option<PlayerSide>; 64],
    winner: Option<PlayerSide>,
}

impl View for Board {
    type V = Position;

    closed spec fn view(&self) -> Position {
        Position {
            move_number: self.move_number as nat,
            turn: self.turn,
            take_back: self.take_back as nat,
            winner: self.winner,
            cells: Map::new(|i: Index| self.slot(i) is Some, |i: Index| self.slot(i).unwrap()),
        }
    }
}

impl Board {
    /// What the arrays hold for the coordinate `i`; nothing where `i` names
    /// no cell.
    closed spec fn slot(&self, i: Index) -> Option<PlayerSide> {
        if i.in_pyramid() {
            self.main_board@[i.x * 16 + i.y * 4 + i.z]
        } else if i.in_reserve() && i.b == BoardSide::White {
            if self.white_reserve@[i.x * 3 + i.y] {
                Some(PlayerSide::White)
            } else {
                None
            }
        } else if i.in_reserve() && i.b == BoardSide::Black {
            if self.black_reserve@[i.x * 3 + i.y] {
                Some(PlayerSide::Black)
            } else {
                None
            }
        } else {
            None
        }
    }

    /// The value of a board is a well-formed position whose counters fit
    /// in a byte.
    pub proof fn lemma_view_wf(&self)
        ensures
            self@.wf(),
            self@.move_number <= u8::MAX,
            self@.take_back <= u8::MAX,
    {
    }

    /// A new game: every ball in its reserve, White to move.
    pub fn new() -> (r: Board)
        ensures
            r@ == Position::initial(),
    {
        let empty: Option<PlayerSide> = None;
        let white_reserve = [true; 15];
        let black_reserve = [true; 15];
        let main_board = [empty; 64];
        let r = Board {
            move_number: 0,
            turn: PlayerSide::White,
            take_back: 0,
            white_reserve,
            black_reserve,
            main_board,
            winner: None,
        };
        assert(r@.cells =~= Position::initial().cells) by {
            assert forall|i: Index| r.slot(i) == Position::initial().owner(i) by {}
        }
        r
    }

    /// The owner of the ball at `index`, if one lies there.
    pub fn get(&self, index: Index) -> (r: Option<PlayerSide>)
        ensures
            r == self@.owner(index),
    {
        if index.is_in_pyramid() {
            self.main_board[(index.x as usize) * 16 + (index.y as usize) * 4 + (index.z as usize)]
        } else if index.is_in_reserve() {
            match index.b {
                BoardSide::White => {
                    if self.white_reserve[(index.x as usize) * 3 + (index.y as usize)] {
                        Some(PlayerSide::White)
                    } else {
                        None
                    }
                },
                BoardSide::Black => {
                    if self.black_reserve[(index.x as usize) * 3 + (index.y as usize)] {
                        Some(PlayerSide::Black)
                    } else {
                        None
                    }
                },
                BoardSide::Center => None,
            }
        } else {
            None
        }
    }

    /// Whether a bonus removal is due.
    pub fn take_back_rule(&self) -> (r: bool)
        ensures
            r == (self@.take_back > 0),
    {
        self.take_back > 0
    }

    /// How many bonus removals are owed.
    pub fn get_take_back(&self) -> (r: u8)
        ensures
            r == self@.take_back,
    {
        self.take_back
    }

    /// The winner, once there is one.
    pub fn get_winner(&self) -> (r: Option<PlayerSide>)
        ensures
            r == self@.winner,
    {
        self.winner
    }

    /// The player to move.
    pub fn get_turn(&self) -> (r: PlayerSide)
        ensures
            r == self@.turn,
    {
        self.turn
    }

    /// How many ordinary moves have been played.
    pub fn get_move_number(&self) -> (r: u8)
        ensures
            r == self@.move_number,
    {
        self.move_number
    }

    /// Takes the ball away, if it lies on the board exactly as given.
    pub(crate) fn remove_ball(&mut self, ball: Ball) -> (r: bool)
        ensures
            r == old(self)@.has_ball(ball),
            r ==> final(self)@ == (Position {
                cells: old(self)@.cells.remove(ball.index),
                ..old(self)@
            }),
            !r ==> *final(self) == *old(self),
    {
        if self.get(ball.index) != Some(ball.player) {
            return false;
        }
        let index = ball.index;
        match index.b {
            BoardSide::White => {
                self.white_reserve[(index.x as usize) * 3 + (index.y as usize)] = false;
            },
            BoardSide::Black => {
                self.black_reserve[(index.x as usize) * 3 + (index.y as usize)] = false;
            },
            BoardSide::Center => {
                self.main_board[(index.x as usize) * 16 + (index.y as usize) * 4 + (
                index.z as usize)] = None;
            },
        }
        assert(final(self)@.cells =~= old(self)@.cells.remove(ball.index)) by {
            assert forall|i: Index| self.slot(i) == (if i == index {
                None
            } else {
                old(self).slot(i)
            }) by {}
        }
        true
    }

    /// Puts the ball down, if its coordinate is an empty cell that may hold it.
    pub(crate) fn add_ball(&mut self, ball: Ball) -> (r: bool)
        ensures
            r == (Position::may_hold(ball.index, ball.player) && !old(self)@.occupied(ball.index)),
            r ==> final(self)@ == (Position {
                cells: old(self)@.cells.insert(ball.index, ball.player),
                ..old(self)@
            }),
            !r ==> *final(self) == *old(self),
    {
        let index = ball.index;
        if self.get(index).is_some() {
            return false;
        }
        if index.is_in_pyramid() {
            self.main_board[(index.x as usize) * 16 + (index.y as usize) * 4 + (
            index.z as usize)] = Some(ball.player);
        } else if index.is_in_reserve() && index.b == Board::player_side_to_board_side(ball.player) {
            match index.b {
                BoardSide::White => {
                    self.white_reserve[(index.x as usize) * 3 + (index.y as usize)] = true;
                },
                _ => {
                    self.black_reserve[(index.x as usize) * 3 + (index.y as usize)] = true;
                },
            }
        } else {
            return false;
        }
        assert(final(self)@.cells =~= old(self)@.cells.insert(ball.index, ball.player)) by {
            assert forall|i: Index| self.slot(i) == (if i == index {
                Some(ball.player)
            } else {
                old(self).slot(i)
            }) by {}
        }
        true
    }

    /// Counts one more move.
    pub(crate) fn increase_move_number(&mut self)
        requires
            old(self)@.move_number < u8::MAX,
        ensures
            final(self)@ == (Position {
                move_number: old(self)@.move_number + 1,
                ..old(self)@
            }),
    {
        self.move_number += 1;
        assert(final(self)@.cells =~= old(self)@.cells);
    }

    /// Hands the turn to the other player.
    pub(crate) fn pass_turn(&mut self)
        ensures
            final(self)@ == old(self)@.with_turn(old(self)@.turn.other()),
    {
        self.turn = self.turn.opponent();
        assert(final(self)@.cells =~= old(self)@.cells);
    }

    /// Grants two bonus removals, unless some are owed already.
    pub(crate) fn bump_take_back_counter(&mut self) -> (r: bool)
        ensures
            r == (old(self)@.take_back == 0),
            r ==> final(self)@ == (Position { take_back: 2, ..old(self)@ }),
            !r ==> *final(self) == *old(self),
    {
        if self.take_back > 0 {
            return false;
        }
        self.take_back = 2;
        assert(final(self)@.cells =~= old(self)@.cells);
        true
    }

    /// Uses up one bonus removal, if one is owed.
    pub(crate) fn decrease_take_back_counter(&mut self) -> (r: bool)
        ensures
            r == (old(self)@.take_back > 0),
            r ==> final(self)@ == (Position {
                take_back: (old(self)@.take_back - 1) as nat,
                ..old(self)@
            }),
            !r ==> *final(self) == *old(self),
    {
        if self.take_back == 0 {
            return false;
        }
        self.take_back -= 1;
        assert(final(self)@.cells =~= old(self)@.cells);
        true
    }

    /// Cancels the bonus removals that are owed.
    pub(crate) fn reset_take_back_counter(&mut self)
        ensures
            final(self)@ == (Position { take_back: 0, ..old(self)@ }),
    {
        self.take_back = 0;
        assert(final(self)@.cells =~= old(self)@.cells);
    }

    /// Records the winner.
    pub(crate) fn set_winner(&mut self, player: PlayerSide)
        ensures
            final(self)@ == (Position { winner: Some(player), ..old(self)@ }),
    {
        self.winner = Some(player);
        assert(final(self)@.cells =~= old(self)@.cells);
    }

    /// The same board with `player` to move.
    pub(crate) fn with_turn(&self, player: PlayerSide) -> (r: Board)
        ensures
            r@ == self@.with_turn(player),
    {
        let mut r = *self;
        r.turn = player;
        assert(r@.cells =~= self@.cells);
        r
    }

    /// The reserve that holds the balls of `player_side`.
    pub fn player_side_to_board_side(player_side: PlayerSide) -> (r: BoardSide)
        ensures
            r == BoardSide::reserve_of(player_side),
    {
        if player_side == PlayerSide::White {
            BoardSide::White
        } else {
            BoardSide::Black
        }
    }
}

impl Default for Board {
    fn default() -> (r: Board)
        ensures
            r@ == Position::initial(),
    {
        Board::new()
    }
}

} // verus!
