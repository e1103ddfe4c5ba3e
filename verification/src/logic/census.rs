use vstd::prelude::*;
use super::amove::Move;
use super::board_side::BoardSide;
use super::geometry::{lemma_pyramid_cells_complete, lemma_reserve_cells_complete};
use super::laws::{
    lemma_after_keeps_wf, lemma_apex_stays_empty, lemma_legal_moves_are_accepted,
    lemma_legal_moves_keep_support,
};
use super::position::CellTest;
use super::index::{pyramid_cells, pyramid_rank, reserve_cells, Index};
use super::player_side::PlayerSide;
use super::position::Position;

verus! {

impl Position {
    /// The cells that hold a ball of `player`.
    pub open spec fn held_by(self, player: PlayerSide) -> Set<Index> {
        Set::new(|c: Index| self.owner(c) == Some(player))
    }

    /// How many balls `player` has on the table, reserve and pyramid
    /// together.
    pub open spec fn ball_count(self, player: PlayerSide) -> nat {
        self.held_by(player).len()
    }
}

/// The cells of a reserve are fifteen.
pub proof fn lemma_reserve_has_fifteen_cells(side: BoardSide)
    requires
        side != BoardSide::Center,
    ensures
        reserve_cells(side).to_set().len() == 15,
        reserve_cells(side).to_set().finite(),
        forall|c: Index|
            reserve_cells(side).to_set().contains(c) <==> (c.in_reserve() && c.b == side),
{
    broadcast use vstd::seq_lib::seq_to_set_is_finite;

    let cells = reserve_cells(side);
    lemma_reserve_cells_complete(side, cells[0]);
    assert(cells.no_duplicates()) by {
        assert forall|i: int, j: int| 0 <= i < cells.len() && 0 <= j < cells.len() && i
            != j implies cells[i] != cells[j] by {
            assert(cells[i].y * 5 + cells[i].x == i);
            assert(cells[j].y * 5 + cells[j].x == j);
        }
    }
    cells.unique_seq_to_set();
    assert forall|c: Index| cells.to_set().contains(c) <==> (c.in_reserve() && c.b == side) by {
        lemma_reserve_cells_complete(side, c);
    }
}

/// The cells of the table are finitely many.
pub proof fn lemma_cells_are_finite()
    ensures
        Position::all_cells().to_set().finite(),
        forall|c: Index| Position::all_cells().to_set().contains(c) <==> c.on_board(),
{
    broadcast use vstd::seq_lib::seq_to_set_is_finite;

    assert forall|c: Index| Position::all_cells().to_set().contains(c) <==> c.on_board() by {
        lemma_pyramid_cells_complete(c);
        lemma_reserve_cells_complete(BoardSide::White, c);
        lemma_reserve_cells_complete(BoardSide::Black, c);
        let all = Position::all_cells();
        if c.in_pyramid() {
            assert(all[30 + pyramid_rank(c)] == c);
        } else if c.in_reserve() && c.b == BoardSide::White {
            assert(all[c.y * 5 + c.x] == c);
        } else if c.in_reserve() {
            assert(all[15 + c.y * 5 + c.x] == c);
        }
        if all.contains(c) {
            let k = choose|k: int| 0 <= k < all.len() && all[k] == c;
            if k < 15 {
                assert(all[k] == reserve_cells(BoardSide::White)[k]);
            } else if k < 30 {
                assert(all[k] == reserve_cells(BoardSide::Black)[k - 15]);
            } else {
                assert(all[k] == pyramid_cells()[k - 30]);
            }
        }
    }
}

/// A player holds finitely many cells.
pub proof fn lemma_held_cells_are_finite(p: Position, player: PlayerSide)
    requires
        p.wf(),
    ensures
        p.held_by(player).finite(),
{
    lemma_cells_are_finite();
    assert(p.held_by(player).subset_of(Position::all_cells().to_set())) by {
        assert forall|c: Index| p.held_by(player).contains(c) implies Position::all_cells().to_set().contains(
            c,
        ) by {
            assert(p.cells.contains_key(c));
            assert(Position::may_hold(c, p.cells[c]));
            assert(c.on_board());
        }
    }
    vstd::set_lib::lemma_set_subset_finite(Position::all_cells().to_set(), p.held_by(player));
}

/// A game starts with fifteen balls a side.
pub proof fn lemma_fifteen_balls_each(player: PlayerSide)
    ensures
        Position::initial().ball_count(player) == 15,
        Position::initial().wf(),
{
    let side = BoardSide::reserve_of(player);
    lemma_reserve_has_fifteen_cells(side);
    assert(Position::initial().held_by(player) =~= reserve_cells(side).to_set());
}

/// No move makes or loses a ball: an accepted move leaves each player
/// with as many balls as before.
pub proof fn lemma_moves_conserve_balls(p: Position, mv: Move, player: PlayerSide)
    requires
        p.wf(),
        p.rejection(mv) is None,
    ensures
        p.after(mv).ball_count(player) == p.ball_count(player),
{
    broadcast use vstd::set::group_set_axioms;

    let q = p.after(mv);
    if mv.to.index.is_apex() {
        assert(q.held_by(player) =~= p.held_by(player));
    } else {
        assert(q.cells == p.relocate(mv).cells);
        lemma_held_cells_are_finite(p, player);
        if player == p.turn {
            let held = p.held_by(player);
            assert(held.contains(mv.from.index));
            assert(!held.contains(mv.to.index));
            assert(q.held_by(player) =~= held.remove(mv.from.index).insert(mv.to.index));
        } else {
            assert(q.held_by(player) =~= p.held_by(player));
        }
    }
}

impl Position {
    /// What holds of every position of a game played by the rules: it is
    /// well formed, every ball of the pyramid is fully supported, each
    /// player has fifteen balls, the apex is empty, and no more than two
    /// bonus removals are owed.
    pub open spec fn sound(self) -> bool {
        &&& self.wf()
        &&& self.stable()
        &&& self.ball_count(PlayerSide::White) == 15
        &&& self.ball_count(PlayerSide::Black) == 15
        &&& !self.occupied(Index::center(0, 0, 3))
        &&& self.take_back <= 2
    }
}

/// A game starts from a sound position.
pub proof fn lemma_initial_is_sound()
    ensures
        Position::initial().sound(),
{
    lemma_fifteen_balls_each(PlayerSide::White);
    lemma_fifteen_balls_each(PlayerSide::Black);
    let p = Position::initial();
    assert forall|c: Index| #[trigger] p.occupied(c) && c.in_pyramid() implies p.supported(c) by {}
}

/// Play by the rules keeps a position sound: after a move that the
/// generator lists, in an open game, it is sound again.
pub proof fn lemma_legal_play_keeps_sound(p: Position, k: int)
    requires
        p.sound(),
        p.winner is None,
        0 <= k < p.legal_moves().len(),
    ensures
        p.after(p.legal_moves()[k]).sound(),
{
    let mv = p.legal_moves()[k];
    lemma_legal_moves_are_accepted(p, k);
    lemma_legal_moves_keep_support(p, k);
    lemma_after_keeps_wf(p, mv);
    lemma_moves_conserve_balls(p, mv, PlayerSide::White);
    lemma_moves_conserve_balls(p, mv, PlayerSide::Black);
    lemma_apex_stays_empty(p, mv, Index::center(0, 0, 3));
}

/// In a sound position, a player with a ball on the pyramid has an empty
/// cell in reserve: a loose ball can always be taken back.
pub proof fn lemma_pyramid_ball_leaves_a_gap(p: Position, player: PlayerSide, c: Index)
    requires
        p.sound(),
        c.in_pyramid(),
        p.owner(c) == Some(player),
    ensures
        p.reserve_gaps(player).len() > 0,
{
    broadcast use vstd::set::group_set_axioms;

    let side = BoardSide::reserve_of(player);
    let cells = reserve_cells(side);
    if p.reserve_gaps(player).len() == 0 {
        super::seqs::lemma_filter_nonempty(cells, p.test(CellTest::Gap));
        lemma_reserve_has_fifteen_cells(side);
        lemma_held_cells_are_finite(p, player);
        let held = p.held_by(player);
        assert forall|d: Index| cells.to_set().contains(d) implies held.contains(d) by {
            let k = choose|k: int| 0 <= k < cells.len() && cells[k] == d;
            assert(!p.test(CellTest::Gap)(cells[k]));
            assert(p.cells.contains_key(d));
            assert(Position::may_hold(d, p.cells[d]));
        }
        assert(cells.to_set().insert(c).subset_of(held));
        vstd::set_lib::lemma_len_subset(cells.to_set().insert(c), held);
        assert(!cells.to_set().contains(c));
        assert(cells.to_set().insert(c).len() == 16);
    }
}

/// In a sound position, a bonus removal is open to the player to move
/// exactly if one of his pyramid balls is loose.
pub proof fn lemma_removal_needs_only_a_loose_ball(p: Position)
    requires
        p.sound(),
        p.take_back > 0,
    ensures
        p.legal_moves().len() > 0 <==> p.loose_balls(p.turn).len() > 0,
{
    let loose = p.loose_balls(p.turn);
    if loose.len() > 0 {
        super::seqs::lemma_filter_element(pyramid_cells(), p.test(CellTest::Loose(p.turn)), 0);
        lemma_pyramid_cells_complete(loose[0]);
        lemma_pyramid_ball_leaves_a_gap(p, p.turn, loose[0]);
    }
}

} // verus!
