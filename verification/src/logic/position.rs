use vstd::prelude::*;
use super::amove::Move;
use super::ball::Ball;
use super::board_side::BoardSide;
use super::index::{pyramid_cells, reserve_cells, Index};
use super::player_side::PlayerSide;

verus! {

/// Why a move was turned down, in the order in which the rules are tested.
#[derive(Clone, Copy, Debug, PartialEq, Eq, Structural, Hash)]
pub enum MoveError {
    /// An end of the move names a player other than the one to move.
    WrongColor,
    /// The game already has a winner.
    GameOver,
    /// The ball to move does not lie where the move says.
    NoSuchBall,
    /// A cell beneath the target is empty.
    Unsupported,
    /// The target already holds a ball.
    Occupied,
    /// The target names no cell that can hold a ball of the mover.
    InvalidTarget,
    /// A bonus removal is due, and the move is not one.
    IllegalTakeBack,
}

/// A question about one cell of a position.
#[derive(Clone, Copy, Debug, PartialEq, Eq, Structural)]
pub enum CellTest {
    /// Is it an empty cell with every cell beneath it occupied?
    Free,
    /// Does it hold a ball of this player, with nothing resting on it?
    Loose(PlayerSide),
    /// Does it hold a ball?
    Full,
    /// Is it empty?
    Gap,
    /// May a ball climb to it from this cell?
    ClimbFrom(Index),
}

/// A game position as a mathematical value: what the rules speak of.
#[verifier::ext_equal]
pub struct Position {
    /// How many ordinary moves have been played.
    pub move_number: nat,
    /// The player to move.
    pub turn: PlayerSide,
    /// How many bonus removals the player to move may still make.
    pub take_back: nat,
    /// The winner, once there is one.
    pub winner: Option<PlayerSide>,
    /// The occupied cells, each with the owner of its ball.
    pub cells: Map<Index, PlayerSide>,
}

impl Position {
    /// The position before the first move: every ball in its reserve,
    /// White to move.
    pub open spec fn initial() -> Position {
        Position {
            move_number: 0,
            turn: PlayerSide::White,
            take_back: 0,
            winner: None,
            cells: Map::new(
                |i: Index| i.in_reserve(),
                |i: Index|
                    if i.b == BoardSide::White {
                        PlayerSide::White
                    } else {
                        PlayerSide::Black
                    },
            ),
        }
    }

    /// Only cells hold balls, and a reserve holds only balls of its side.
    pub open spec fn wf(self) -> bool {
        forall|i: Index| #[trigger]
            self.cells.contains_key(i) ==> Position::may_hold(i, self.cells[i])
    }

    /// A ball of `player` may lie at `i`: a cell of the pyramid, or of the
    /// player's own reserve.
    pub open spec fn may_hold(i: Index, player: PlayerSide) -> bool {
        i.in_pyramid() || (i.in_reserve() && i.b == BoardSide::reserve_of(player))
    }

    /// A ball lies at `i`.
    pub open spec fn occupied(self, i: Index) -> bool {
        self.cells.contains_key(i)
    }

    /// The owner of the ball at `i`, if one lies there.
    pub open spec fn owner(self, i: Index) -> Option<PlayerSide> {
        if self.cells.contains_key(i) {
            Some(self.cells[i])
        } else {
            None
        }
    }

    /// The ball lies on the board exactly as given.
    pub open spec fn has_ball(self, ball: Ball) -> bool {
        self.owner(ball.index) == Some(ball.player)
    }

    /// Every cell beneath `i` holds a ball. A cell of the base, or of a
    /// reserve, has none beneath it.
    pub open spec fn supported(self, i: Index) -> bool {
        forall|k: int| 0 <= k < i.parents().len() ==> self.occupied(#[trigger] i.parents()[k])
    }

    /// Some cell that rests on `i` holds a ball.
    pub open spec fn covered(self, i: Index) -> bool {
        exists|k: int| 0 <= k < i.children().len() && self.occupied(#[trigger] i.children()[k])
    }

    /// Every one of `cells` holds a ball of `player`.
    pub open spec fn all_owned_by(self, cells: Seq<Index>, player: PlayerSide) -> bool {
        forall|k: int| 0 <= k < cells.len() ==> self.owner(#[trigger] cells[k]) == Some(player)
    }

    /// The ball at `c` completes a square of `player`: some cell that rests
    /// on `c` has all four cells beneath it held by `player`.
    pub open spec fn forms_square(self, c: Index, player: PlayerSide) -> bool {
        exists|k: int|
            0 <= k < c.children().len() && self.all_owned_by(
                (#[trigger] c.children()[k]).parents(),
                player,
            )
    }

    /// The cell `c` is free: empty, with every cell beneath it occupied.
    pub open spec fn is_free(self, c: Index) -> bool {
        !self.occupied(c) && self.supported(c)
    }

    /// The cell `c` holds a loose ball of `player`: one with nothing
    /// resting on it.
    pub open spec fn is_loose(self, c: Index, player: PlayerSide) -> bool {
        self.owner(c) == Some(player) && !self.covered(c)
    }

    /// A ball may climb from `from` to `to`: `to` lies higher and does not
    /// rest on `from`.
    pub open spec fn may_climb(from: Index, to: Index) -> bool {
        from.z < to.z && !to.rests_on(from)
    }

    /// Whether the cell `c` passes the test `t` in this position.
    pub open spec fn passes(self, t: CellTest, c: Index) -> bool {
        match t {
            CellTest::Free => self.is_free(c),
            CellTest::Loose(player) => self.is_loose(c, player),
            CellTest::Full => self.occupied(c),
            CellTest::Gap => !self.occupied(c),
            CellTest::ClimbFrom(from) => Position::may_climb(from, c),
        }
    }

    /// The test `t` as a predicate on cells.
    pub open spec fn test(self, t: CellTest) -> spec_fn(Index) -> bool {
        |c: Index| self.passes(t, c)
    }

    /// The free cells of the pyramid, in the fixed order.
    pub open spec fn free_cells(self) -> Seq<Index> {
        pyramid_cells().filter(self.test(CellTest::Free))
    }

    /// The cells of the loose pyramid balls of `player`, in the fixed order.
    pub open spec fn loose_balls(self, player: PlayerSide) -> Seq<Index> {
        pyramid_cells().filter(self.test(CellTest::Loose(player)))
    }

    /// The occupied cells of the reserve of `player`, in the fixed order.
    pub open spec fn reserve_balls(self, player: PlayerSide) -> Seq<Index> {
        reserve_cells(BoardSide::reserve_of(player)).filter(self.test(CellTest::Full))
    }

    /// The empty cells of the reserve of `player`, in the fixed order.
    pub open spec fn reserve_gaps(self, player: PlayerSide) -> Seq<Index> {
        reserve_cells(BoardSide::reserve_of(player)).filter(self.test(CellTest::Gap))
    }

    /// How many balls `player` still has in reserve.
    pub open spec fn reserve_count(self, player: PlayerSide) -> nat {
        self.reserve_balls(player).len()
    }

    /// The move of a ball of `player` from `from`, as a function of where
    /// it goes.
    pub open spec fn move_to(player: PlayerSide, from: Index) -> spec_fn(Index) -> Move {
        |to: Index| Move::of(player, from, to)
    }

    /// The move of a ball of `player` to `to`, as a function of where it
    /// comes from.
    pub open spec fn move_from(player: PlayerSide, to: Index) -> spec_fn(Index) -> Move {
        |from: Index| Move::of(player, from, to)
    }

    /// The moves that bring the first reserve ball of the player to move
    /// onto a free cell; none if the reserve is empty.
    pub open spec fn placements(self) -> Seq<Move> {
        if self.reserve_balls(self.turn).len() == 0 {
            Seq::empty()
        } else {
            self.free_cells().map_values(
                Position::move_to(self.turn, self.reserve_balls(self.turn)[0]),
            )
        }
    }

    /// The moves that lift the loose ball at `from` onto a free cell.
    pub open spec fn climbs_from(self, from: Index) -> Seq<Move> {
        self.free_cells().filter(self.test(CellTest::ClimbFrom(from))).map_values(
            Position::move_to(self.turn, from),
        )
    }

    /// The climbs from a cell, as a function of the cell.
    pub open spec fn climbs_from_fn(self) -> spec_fn(Index) -> Seq<Move> {
        |from: Index| self.climbs_from(from)
    }

    /// The moves that lift a loose ball of the player to move onto a free
    /// cell, ball by ball.
    pub open spec fn climbs(self) -> Seq<Move> {
        self.loose_balls(self.turn).map_values(self.climbs_from_fn()).flatten()
    }

    /// The bonus removals: each loose ball of the player to move, to the
    /// first empty cell of the player's reserve; none if the reserve is
    /// full.
    pub open spec fn removals(self) -> Seq<Move> {
        if self.reserve_gaps(self.turn).len() == 0 {
            Seq::empty()
        } else {
            self.loose_balls(self.turn).map_values(
                Position::move_from(self.turn, self.reserve_gaps(self.turn)[0]),
            )
        }
    }

    /// The moves open to the player to move, in generation order. While a
    /// bonus removal is due these are the removals; otherwise the
    /// placements, then the climbs.
    pub open spec fn legal_moves(self) -> Seq<Move> {
        if self.take_back > 0 {
            self.removals()
        } else {
            self.placements() + self.climbs()
        }
    }

    /// The moves that move `ball`, as a predicate on moves.
    pub open spec fn moves_of(ball: Ball) -> spec_fn(Move) -> bool {
        |mv: Move| mv.from == ball
    }

    /// Where a move brings its ball, as a function of the move.
    pub open spec fn target() -> spec_fn(Move) -> Ball {
        |mv: Move| mv.to
    }

    /// Where `ball` may go: the targets of the moves open to the player to
    /// move that move this very ball, in generation order.
    pub open spec fn targets_of(self, ball: Ball) -> Seq<Ball> {
        self.legal_moves().filter(Position::moves_of(ball)).map_values(Position::target())
    }

    /// The same position with `player` to move.
    pub open spec fn with_turn(self, player: PlayerSide) -> Position {
        Position { turn: player, ..self }
    }

    /// `player` would have a move, were it that player's turn.
    pub open spec fn can_move(self, player: PlayerSide) -> bool {
        self.with_turn(player).legal_moves().len() > 0
    }

    /// The turn passes to the opponent, unless the opponent has no move.
    pub open spec fn settle_turn(self) -> Position {
        if self.can_move(self.turn.other()) {
            self.with_turn(self.turn.other())
        } else {
            self
        }
    }

    /// A bonus removal: from the pyramid into the mover's own reserve.
    pub open spec fn is_removal(self, mv: Move) -> bool {
        mv.from.index.b == BoardSide::Center && mv.to.index.b == BoardSide::reserve_of(self.turn)
    }

    /// The first rule that `mv` breaks, if it breaks one. The rules in
    /// their order: both ends name the player to move; the game is open;
    /// the ball lies where the move says; every cell beneath the target is
    /// occupied; the target is empty. A move that keeps these five must
    /// further go to a cell that can hold the mover's ball and, while a
    /// bonus removal is due and the move does not reach the apex, be a
    /// removal.
    pub open spec fn rejection(self, mv: Move) -> Option<MoveError> {
        if mv.from.player != self.turn || mv.to.player != self.turn {
            Some(MoveError::WrongColor)
        } else if self.winner is Some {
            Some(MoveError::GameOver)
        } else if !self.has_ball(mv.from) {
            Some(MoveError::NoSuchBall)
        } else if !self.supported(mv.to.index) {
            Some(MoveError::Unsupported)
        } else if self.occupied(mv.to.index) {
            Some(MoveError::Occupied)
        } else if !Position::may_hold(mv.to.index, mv.to.player) {
            Some(MoveError::InvalidTarget)
        } else if !mv.to.index.is_apex() && self.take_back > 0 && !self.is_removal(mv) {
            Some(MoveError::IllegalTakeBack)
        } else {
            None
        }
    }

    /// The move `mv` is accepted and counts as one more move: it is an
    /// ordinary move that does not reach the apex.
    pub open spec fn counts(self, mv: Move) -> bool {
        self.rejection(mv) is None && self.take_back == 0 && !mv.to.index.is_apex()
    }

    /// The move counter, which holds no more than `limit`, has room for
    /// what `mv` adds to it.
    pub open spec fn has_room(self, mv: Move, limit: nat) -> bool {
        self.counts(mv) ==> self.move_number < limit
    }

    /// The ball of `mv` taken from where it was and put where it goes.
    pub open spec fn relocate(self, mv: Move) -> Position {
        Position {
            cells: self.cells.remove(mv.from.index).insert(mv.to.index, mv.to.player),
            ..self
        }
    }

    /// The position that an accepted move leads to.
    ///
    /// A move to the apex wins, and changes nothing else. Otherwise the
    /// ball is relocated. An ordinary move counts as one more move; if it
    /// completes a square, the mover is owed two bonus removals and keeps
    /// the turn, else the turn is settled. A bonus removal uses one up; if
    /// more are owed and possible, the mover goes on, else none are owed
    /// any more and the turn is settled.
    pub open spec fn after(self, mv: Move) -> Position {
        if mv.to.index.is_apex() {
            Position { winner: Some(mv.to.player), ..self }
        } else if self.take_back == 0 {
            let moved = Position {
                move_number: self.move_number + 1,
                ..self.relocate(mv)
            };
            if moved.forms_square(mv.to.index, self.turn) {
                Position { take_back: 2, ..moved }
            } else {
                moved.settle_turn()
            }
        } else {
            let moved = Position {
                take_back: (self.take_back - 1) as nat,
                ..self.relocate(mv)
            };
            if moved.take_back > 0 && moved.legal_moves().len() > 0 {
                moved
            } else {
                Position { take_back: 0, ..moved }.settle_turn()
            }
        }
    }

    /// What playing `mv` gives: the position after it, or the rule it
    /// breaks.
    pub open spec fn play(self, mv: Move) -> Result<Position, MoveError> {
        match self.rejection(mv) {
            Some(e) => Err(e),
            None => Ok(self.after(mv)),
        }
    }
}

} // verus!
