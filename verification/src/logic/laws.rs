use vstd::prelude::*;
use super::amove::Move;
use super::geometry::{
    lemma_children_are_those_resting, lemma_pyramid_cells_complete, lemma_reserve_cells_complete,
};
use super::index::{pyramid_cells, reserve_cells, Index};
use super::position::{CellTest, MoveError, Position};
use super::seqs::{
    lemma_filter_contains, lemma_filter_element, lemma_flatten_element, lemma_part_is_in_flatten,
};

verus! {

/// Whether a square is completed, and what supports or covers a cell,
/// depends on where the balls lie and on nothing else.
pub proof fn lemma_cells_decide(p: Position, q: Position)
    requires
        p.cells == q.cells,
    ensures
        forall|c, player| p.forms_square(c, player) == q.forms_square(c, player),
        forall|c| p.supported(c) == q.supported(c),
        forall|c| p.covered(c) == q.covered(c),
        forall|c| p.owner(c) == q.owner(c),
{
    assert forall|c, player| p.forms_square(c, player) == q.forms_square(c, player) by {
        assert forall|cells| p.all_owned_by(cells, player) == q.all_owned_by(cells, player) by {}
    }
}

/// Once a move has put a ball on a cell, no move to that cell is
/// accepted: a cell never holds two balls. A second move to that cell is
/// turned down as `Occupied`, unless an earlier rule already turns it
/// down: its ends must name the player to move, the game must not be won,
/// its ball must lie where it says, and the cell must still be supported.
pub proof fn lemma_second_move_to_same_target_fails(p: Position, first: Move, second: Move)
    requires
        p.rejection(first) is None,
        second.to.index == first.to.index,
    ensures
        p.after(first).rejection(second) is Some,
        !first.to.index.is_apex() ==> p.after(first).owner(first.to.index) == Some(
            first.to.player,
        ),
        ({
            let q = p.after(first);
            &&& second.from.player == q.turn
            &&& second.to.player == q.turn
            &&& q.winner is None
            &&& q.has_ball(second.from)
            &&& q.supported(second.to.index)
        }) ==> p.after(first).rejection(second) == Some(MoveError::Occupied),
{
}

/// A move onto a cell that holds a ball is never accepted, whatever the
/// cell and whoever owns the ball. It is turned down as `Occupied`, unless
/// one of the four rules before that one already turns it down.
pub proof fn lemma_occupied_target_fails(p: Position, mv: Move)
    requires
        p.occupied(mv.to.index),
    ensures
        p.rejection(mv) is Some,
        p.rejection(mv) == Some(MoveError::WrongColor) || p.rejection(mv) == Some(
            MoveError::GameOver,
        ) || p.rejection(mv) == Some(MoveError::NoSuchBall) || p.rejection(mv) == Some(
            MoveError::Unsupported,
        ) || p.rejection(mv) == Some(MoveError::Occupied),
        (mv.from.player == p.turn && mv.to.player == p.turn && p.winner is None && p.has_ball(
            mv.from,
        ) && p.supported(mv.to.index)) ==> p.rejection(mv) == Some(MoveError::Occupied),
{
}

/// The two further rules come last: a move is turned down for its target
/// being no cell for the ball, or for not being the removal that is due,
/// only where it keeps the five rules before them.
pub proof fn lemma_five_rules_come_first(p: Position, mv: Move)
    requires
        p.rejection(mv) == Some(MoveError::InvalidTarget) || p.rejection(mv) == Some(
            MoveError::IllegalTakeBack,
        ),
    ensures
        mv.from.player == p.turn,
        mv.to.player == p.turn,
        p.winner is None,
        p.has_ball(mv.from),
        p.supported(mv.to.index),
        !p.occupied(mv.to.index),
{
}

/// A move onto a pyramid cell with an empty cell beneath it is never
/// accepted. It is turned down as `Unsupported`, unless an earlier rule
/// already turns it down: its ends must name the player to move, the game
/// must not be won, and its ball must lie where it says.
pub proof fn lemma_unsupported_target_fails(p: Position, mv: Move, k: int)
    requires
        mv.to.index.in_pyramid(),
        0 <= k < mv.to.index.parents().len(),
        !p.occupied(mv.to.index.parents()[k]),
    ensures
        p.rejection(mv) is Some,
        (mv.from.player == p.turn && mv.to.player == p.turn && p.winner is None && p.has_ball(
            mv.from,
        )) ==> p.rejection(mv) == Some(MoveError::Unsupported),
{
}

/// A move with an end that names another player than the one to move is
/// turned down as `WrongColor`, whatever else holds.
pub proof fn lemma_wrong_color_fails(p: Position, mv: Move)
    requires
        mv.from.player != p.turn || mv.to.player != p.turn,
    ensures
        p.rejection(mv) == Some(MoveError::WrongColor),
{
}

/// A move that completes a square leaves the mover owed exactly two bonus
/// removals, and still to move. Only an ordinary move onto the pyramid can
/// complete one.
pub proof fn lemma_square_grants_two_removals(p: Position, mv: Move)
    requires
        p.rejection(mv) is None,
        p.relocate(mv).forms_square(mv.to.index, p.turn),
    ensures
        p.after(mv).take_back == 2,
        p.after(mv).turn == p.turn,
        p.after(mv).move_number == p.move_number + 1,
        p.after(mv).winner is None,
        p.take_back == 0,
        mv.to.index.in_pyramid(),
        !mv.to.index.is_apex(),
{
    let to = mv.to.index;
    let k = choose|k: int|
        0 <= k < to.children().len() && p.relocate(mv).all_owned_by(
            (#[trigger] to.children()[k]).parents(),
            p.turn,
        );
    assert(to.in_pyramid());
    lemma_filter_element(to.above(), |c: Index| c.in_pyramid(), k);
    assert(to.children()[k].in_pyramid());
    let i = choose|i: int| 0 <= i < to.above().len() && to.above()[i] == to.children()[k];
    assert(to.z < 3);
    let moved = Position { move_number: p.move_number + 1, ..p.relocate(mv) };
    lemma_cells_decide(moved, p.relocate(mv));
}

/// An ordinary move that completes no square settles the turn: it passes
/// to the opponent, unless the opponent then has no move.
pub proof fn lemma_plain_move_settles_turn(p: Position, mv: Move)
    requires
        p.rejection(mv) is None,
        !mv.to.index.is_apex(),
        p.take_back == 0,
        !p.relocate(mv).forms_square(mv.to.index, p.turn),
    ensures
        p.after(mv).take_back == 0,
        p.after(mv).move_number == p.move_number + 1,
        p.after(mv).cells == p.relocate(mv).cells,
        p.after(mv).turn == if p.after(mv).can_move(p.turn.other()) {
            p.turn.other()
        } else {
            p.turn
        },
{
    let moved = Position { move_number: p.move_number + 1, ..p.relocate(mv) };
    lemma_cells_decide(moved, p.relocate(mv));
    lemma_turn_does_not_decide(moved, moved.settle_turn(), p.turn.other());
}

/// Whether a player could move does not depend on whose turn it is.
pub proof fn lemma_turn_does_not_decide(p: Position, q: Position, player: super::player_side::PlayerSide)
    requires
        q == p.with_turn(q.turn),
    ensures
        p.can_move(player) == q.can_move(player),
{
    assert(p.with_turn(player) == q.with_turn(player));
}

/// The bonus removal that ends a bonus sequence, because none is owed any
/// more or none is possible, leaves none owed and settles the turn: it
/// passes to the opponent, unless the opponent then has no move.
pub proof fn lemma_last_removal_settles_turn(p: Position, mv: Move)
    requires
        p.rejection(mv) is None,
        !mv.to.index.is_apex(),
        p.take_back > 0,
        ({
            let moved = Position { take_back: (p.take_back - 1) as nat, ..p.relocate(mv) };
            moved.take_back == 0 || moved.legal_moves().len() == 0
        }),
    ensures
        p.after(mv).take_back == 0,
        p.after(mv).move_number == p.move_number,
        p.after(mv).cells == p.relocate(mv).cells,
        p.after(mv).turn == if p.after(mv).can_move(p.turn.other()) {
            p.turn.other()
        } else {
            p.turn
        },
{
    let moved = Position { take_back: (p.take_back - 1) as nat, ..p.relocate(mv) };
    let done = Position { take_back: 0, ..moved };
    lemma_turn_does_not_decide(done, done.settle_turn(), p.turn.other());
}

/// A bonus removal after which more are owed and possible leaves the mover
/// to move, owed one less.
pub proof fn lemma_removal_goes_on(p: Position, mv: Move)
    requires
        p.rejection(mv) is None,
        !mv.to.index.is_apex(),
        p.take_back > 0,
        ({
            let moved = Position { take_back: (p.take_back - 1) as nat, ..p.relocate(mv) };
            moved.take_back > 0 && moved.legal_moves().len() > 0
        }),
    ensures
        p.after(mv).take_back == p.take_back - 1,
        p.after(mv).turn == p.turn,
        p.after(mv).move_number == p.move_number,
        p.after(mv).cells == p.relocate(mv).cells,
{
}

/// No move leaves more bonus removals owed than two, or than were owed
/// before.
pub proof fn lemma_removals_owed_stay_few(p: Position, mv: Move)
    requires
        p.rejection(mv) is None,
    ensures
        p.after(mv).take_back <= 2 || p.after(mv).take_back <= p.take_back,
        p.take_back <= 2 ==> p.after(mv).take_back <= 2,
{
}

/// A move to the apex makes the mover the winner, and from then on no
/// move is accepted.
pub proof fn lemma_apex_wins_and_ends_game(p: Position, mv: Move, next: Move)
    requires
        p.rejection(mv) is None,
        mv.to.index.is_apex(),
    ensures
        p.after(mv).winner == Some(p.turn),
        p.after(mv).winner == Some(mv.to.player),
        p.after(mv).rejection(next) is Some,
        p.after(mv).rejection(next) == Some(MoveError::WrongColor) || p.after(mv).rejection(next)
            == Some(MoveError::GameOver),
{
}

/// Once won, a game stays as it is: no move is accepted.
pub proof fn lemma_won_game_is_terminal(p: Position, mv: Move)
    requires
        p.winner is Some,
    ensures
        p.rejection(mv) is Some,
{
}

/// An accepted move keeps a position well formed: only cells hold balls,
/// and a reserve holds only balls of its side.
pub proof fn lemma_after_keeps_wf(p: Position, mv: Move)
    requires
        p.wf(),
        p.rejection(mv) is None,
    ensures
        p.after(mv).wf(),
{
    let q = p.after(mv);
    if !mv.to.index.is_apex() {
        assert(q.cells == p.relocate(mv).cells);
        assert forall|i| #[trigger] q.cells.contains_key(i) implies Position::may_hold(
            i,
            q.cells[i],
        ) by {
            if i != mv.to.index {
                assert(p.cells.contains_key(i));
            }
        }
    }
}


/// What the generator lists: moves of a ball of the player to move. While a
/// bonus removal is due, each takes a loose ball from the pyramid to an
/// empty cell of the player's reserve. Otherwise each brings a ball to a
/// free cell of the pyramid, either from the player's reserve or, as a
/// climb, from a loose ball that lies lower and on which the cell does not
/// rest.
pub open spec fn generated(p: Position, mv: Move) -> bool {
    let from = mv.from.index;
    let to = mv.to.index;
    &&& mv == Move::of(p.turn, from, to)
    &&& p.owner(from) == Some(p.turn)
    &&& !p.occupied(to)
    &&& if p.take_back > 0 {
        &&& from.in_pyramid()
        &&& p.is_loose(from, p.turn)
        &&& to.in_reserve()
        &&& to.b == super::board_side::BoardSide::reserve_of(p.turn)
    } else {
        &&& to.in_pyramid()
        &&& p.is_free(to)
        &&& if from.in_pyramid() {
            p.is_loose(from, p.turn) && Position::may_climb(from, to)
        } else {
            from.in_reserve() && from.b == super::board_side::BoardSide::reserve_of(p.turn)
        }
    }
}

/// Every move that the generator lists has the shape of a legal move.
pub proof fn lemma_legal_moves_are_generated(p: Position, k: int)
    requires
        p.wf(),
        0 <= k < p.legal_moves().len(),
    ensures
        generated(p, p.legal_moves()[k]),
{
    let mv = p.legal_moves()[k];
    let turn = p.turn;
    let side = super::board_side::BoardSide::reserve_of(turn);
    if p.take_back > 0 {
        let loose = p.loose_balls(turn);
        let gaps = p.reserve_gaps(turn);
        let to = gaps[0];
        let from = loose[k];
        assert(mv == Move::of(turn, from, to));
        lemma_filter_element(pyramid_cells(), p.test(CellTest::Loose(turn)), k);
        lemma_filter_element(reserve_cells(side), p.test(CellTest::Gap), 0);
        lemma_pyramid_cells_complete(from);
        lemma_reserve_cells_complete(side, to);
    } else if k < p.placements().len() {
        let free = p.free_cells();
        let from = p.reserve_balls(turn)[0];
        let to = free[k];
        assert(mv == Move::of(turn, from, to));
        lemma_filter_element(pyramid_cells(), p.test(CellTest::Free), k);
        lemma_filter_element(reserve_cells(side), p.test(CellTest::Full), 0);
        lemma_pyramid_cells_complete(to);
        lemma_reserve_cells_complete(side, from);
        assert(p.cells.contains_key(from));
    } else {
        let loose = p.loose_balls(turn);
        let parts = loose.map_values(p.climbs_from_fn());
        let j = k - p.placements().len();
        assert(mv == parts.flatten()[j]);
        let place = lemma_flatten_element(parts, j);
        let from = loose[place.0];
        let targets = p.free_cells().filter(p.test(CellTest::ClimbFrom(from)));
        assert(parts[place.0] == p.climbs_from(from));
        let to = targets[place.1];
        assert(mv == Move::of(turn, from, to));
        lemma_filter_element(pyramid_cells(), p.test(CellTest::Loose(turn)), place.0);
        lemma_filter_element(p.free_cells(), p.test(CellTest::ClimbFrom(from)), place.1);
        let i = choose|i: int| 0 <= i < p.free_cells().len() && p.free_cells()[i] == to;
        lemma_filter_element(pyramid_cells(), p.test(CellTest::Free), i);
        lemma_pyramid_cells_complete(to);
        lemma_pyramid_cells_complete(from);
    }
}

/// The generator leaves nothing out. While a bonus removal is due it
/// lists, for every loose ball of the player to move, its removal to the
/// first empty cell of the reserve. Otherwise it lists the move of the
/// first reserve ball to every free cell, and every climb of a loose ball.
pub proof fn lemma_generated_moves_are_listed(p: Position, mv: Move)
    requires
        generated(p, mv),
        p.take_back > 0 ==> p.reserve_gaps(p.turn).len() > 0 && mv.to.index == p.reserve_gaps(
            p.turn,
        )[0],
        (p.take_back == 0 && !mv.from.index.in_pyramid()) ==> p.reserve_balls(p.turn).len() > 0
            && mv.from.index == p.reserve_balls(p.turn)[0],
    ensures
        p.legal_moves().contains(mv),
{
    let from = mv.from.index;
    let to = mv.to.index;
    let turn = p.turn;
    lemma_pyramid_cells_complete(from);
    lemma_pyramid_cells_complete(to);
    if p.take_back > 0 {
        let loose = p.loose_balls(turn);
        lemma_filter_contains(pyramid_cells(), p.test(CellTest::Loose(turn)), from);
        let i = choose|i: int| 0 <= i < loose.len() && loose[i] == from;
        assert(p.removals()[i] == mv);
    } else {
        let free = p.free_cells();
        lemma_filter_contains(pyramid_cells(), p.test(CellTest::Free), to);
        if from.in_pyramid() {
            let loose = p.loose_balls(turn);
            lemma_filter_contains(pyramid_cells(), p.test(CellTest::Loose(turn)), from);
            let i = choose|i: int| 0 <= i < loose.len() && loose[i] == from;
            let targets = free.filter(p.test(CellTest::ClimbFrom(from)));
            lemma_filter_contains(free, p.test(CellTest::ClimbFrom(from)), to);
            let j = choose|j: int| 0 <= j < targets.len() && targets[j] == to;
            let parts = loose.map_values(p.climbs_from_fn());
            assert(parts[i][j] == mv);
            lemma_part_is_in_flatten(parts, i, j);
            let k = choose|k: int| 0 <= k < p.climbs().len() && p.climbs()[k] == mv;
            assert(p.legal_moves()[p.placements().len() + k] == mv);
        } else {
            let j = choose|j: int| 0 <= j < free.len() && free[j] == to;
            assert(p.placements()[j] == mv);
            assert(p.legal_moves()[j] == mv);
        }
    }
}

/// Every move that the generator lists is accepted, as long as the game
/// is open: the generator and the rules agree.
pub proof fn lemma_legal_moves_are_accepted(p: Position, k: int)
    requires
        p.wf(),
        p.winner is None,
        0 <= k < p.legal_moves().len(),
    ensures
        p.rejection(p.legal_moves()[k]) is None,
{
    lemma_legal_moves_are_generated(p, k);
    let mv = p.legal_moves()[k];
    if mv.to.index.in_reserve() {
        assert(mv.to.index.parents().len() == 0);
    }
}

impl Position {
    /// Every ball of the pyramid is fully supported.
    pub open spec fn stable(self) -> bool {
        forall|c: Index| #[trigger] self.occupied(c) && c.in_pyramid() ==> self.supported(c)
    }
}

/// Legal play never takes support away: after a move that the generator
/// lists, every ball of the pyramid is still fully supported.
pub proof fn lemma_legal_moves_keep_support(p: Position, k: int)
    requires
        p.wf(),
        p.stable(),
        p.winner is None,
        0 <= k < p.legal_moves().len(),
    ensures
        p.after(p.legal_moves()[k]).stable(),
        p.after(p.legal_moves()[k]).wf(),
{
    let mv = p.legal_moves()[k];
    let from = mv.from.index;
    let to = mv.to.index;
    let q = p.after(mv);
    lemma_legal_moves_are_generated(p, k);
    lemma_legal_moves_are_accepted(p, k);
    lemma_after_keeps_wf(p, mv);
    if !to.is_apex() {
        assert(q.cells == p.relocate(mv).cells);
        assert forall|c: Index| #[trigger] q.occupied(c) && c.in_pyramid() implies q.supported(
            c,
        ) by {
            assert forall|j: int| 0 <= j < c.parents().len() implies q.occupied(
                #[trigger] c.parents()[j],
            ) by {
                let beneath = c.parents()[j];
                assert(c.parents().contains(beneath));
                lemma_children_are_those_resting(beneath, c);
                if c == to {
                    assert(p.supported(to));
                    assert(p.occupied(beneath));
                } else {
                    assert(p.occupied(c));
                    assert(p.supported(c));
                    assert(p.occupied(beneath));
                    if beneath == from {
                        let i = choose|i: int|
                            0 <= i < from.children().len() && from.children()[i] == c;
                        assert(p.occupied(from.children()[i]));
                    }
                }
                assert(beneath != from);
            }
        }
    } else {
        assert(q.cells == p.cells);
        assert forall|c: Index| #[trigger] q.occupied(c) && c.in_pyramid() implies q.supported(
            c,
        ) by {
            assert(p.occupied(c));
            assert(p.supported(c));
        }
    }
}

/// No move puts a ball on the apex: the move that reaches it wins the game
/// and leaves the board as it is.
pub proof fn lemma_apex_stays_empty(p: Position, mv: Move, apex: Index)
    requires
        apex.is_apex(),
        !p.occupied(apex),
        p.rejection(mv) is None,
    ensures
        !p.after(mv).occupied(apex),
{
    if !mv.to.index.is_apex() {
        assert(p.after(mv).cells == p.relocate(mv).cells);
    }
}

/// While the apex is empty, some cell of the pyramid is free: the lowest
/// empty cell has nothing but balls beneath it.
pub proof fn lemma_some_cell_is_free(p: Position) -> (c: Index)
    requires
        !p.occupied(Index::center(0, 0, 3)),
    ensures
        c.in_pyramid(),
        p.is_free(c),
        p.free_cells().len() > 0,
{
    let empty_at = |z: int| exists|c: Index| c.in_pyramid() && c.z == z && !p.occupied(c);
    let c = if empty_at(0) {
        choose|c: Index| c.in_pyramid() && c.z == 0 && !p.occupied(c)
    } else if empty_at(1) {
        choose|c: Index| c.in_pyramid() && c.z == 1 && !p.occupied(c)
    } else if empty_at(2) {
        choose|c: Index| c.in_pyramid() && c.z == 2 && !p.occupied(c)
    } else {
        Index::center(0, 0, 3)
    };
    assert(c.in_pyramid() && !p.occupied(c));
    assert forall|j: int| 0 <= j < c.parents().len() implies p.occupied(
        #[trigger] c.parents()[j],
    ) by {
        let beneath = c.parents()[j];
        assert(beneath.in_pyramid() && beneath.z == c.z - 1);
        assert(!empty_at(beneath.z as int));
    }
    lemma_pyramid_cells_complete(c);
    assert(p.test(CellTest::Free)(pyramid_cells()[super::index::pyramid_rank(c)]));
    super::seqs::lemma_filter_nonempty(pyramid_cells(), p.test(CellTest::Free));
    c
}

/// While the apex is empty and no bonus removal is due, a player with a
/// ball in reserve has a move: the ball can be placed.
pub proof fn lemma_reserve_ball_can_be_placed(p: Position, player: super::player_side::PlayerSide)
    requires
        !p.occupied(Index::center(0, 0, 3)),
        p.take_back == 0,
        p.reserve_count(player) > 0,
    ensures
        p.can_move(player),
{
    let q = p.with_turn(player);
    let c = lemma_some_cell_is_free(q);
    assert(q.test(CellTest::Full) =~= p.test(CellTest::Full));
    assert(q.reserve_balls(player) == p.reserve_balls(player));
    assert(q.placements().len() == q.free_cells().len());
}

} // verus!
