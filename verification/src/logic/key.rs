use vstd::prelude::*;
use super::board::Board;
use super::board_side::BoardSide;
use super::geometry::{lemma_pyramid_cells_complete, lemma_reserve_cells_complete};
use super::index::{pyramid_cells, pyramid_rank, reserve_cells, Index};
use super::player_side::PlayerSide;
use super::position::Position;

verus! {

/// The number that a row of yes/no answers spells in base 2, first answer
/// first.
pub open spec fn pack_bits(s: Seq<bool>) -> int
    decreases s.len(),
{
    if s.len() == 0 {
        0
    } else {
        2 * pack_bits(s.drop_last()) + if s.last() {
            1int
        } else {
            0int
        }
    }
}

/// The digit that stands for what a cell holds: nothing, a white ball or
/// a black one.
pub open spec fn cell_code(o: Option<PlayerSide>) -> int {
    match o {
        None => 0,
        Some(PlayerSide::White) => 1,
        Some(PlayerSide::Black) => 2,
    }
}

/// The number that a row of cells spells in base 4, first cell first.
pub open spec fn pack_cells(s: Seq<Option<PlayerSide>>) -> int
    decreases s.len(),
{
    if s.len() == 0 {
        0
    } else {
        4 * pack_cells(s.drop_last()) + cell_code(s.last())
    }
}

/// `base` to the power `n`.
pub open spec fn span(base: int, n: nat) -> int
    decreases n,
{
    if n == 0 {
        1
    } else {
        base * span(base, (n - 1) as nat)
    }
}

/// 2 to the power 15: how many ways a reserve can be filled.
pub const RESERVE_SPAN: u128 = 32768;

/// 4 to the power 30: room for what the thirty pyramid cells hold.
pub const PYRAMID_SPAN: u128 = 1152921504606846976;

proof fn lemma_spans()
    ensures
        span(2, 15) == RESERVE_SPAN,
        span(4, 30) == PYRAMID_SPAN,
        forall|n: nat| n <= 15 ==> 0 < #[trigger] span(2, n) <= RESERVE_SPAN,
        forall|n: nat| n <= 30 ==> 0 < #[trigger] span(4, n) <= PYRAMID_SPAN,
{
    reveal_with_fuel(span, 32);
    assert(span(2, 15) == 32768);
    assert(span(4, 10) == 1048576);
    assert(span(4, 20) == 1099511627776);
    assert(span(4, 30) == 1152921504606846976);
    assert forall|n: nat| n <= 15 implies 0 < #[trigger] span(2, n) <= RESERVE_SPAN by {
        lemma_span_grows(2, n, 15);
    }
    assert forall|n: nat| n <= 30 implies 0 < #[trigger] span(4, n) <= PYRAMID_SPAN by {
        lemma_span_grows(4, n, 30);
    }
}

proof fn lemma_span_grows(base: int, n: nat, m: nat)
    requires
        base == 2 || base == 4,
        n <= m,
    ensures
        0 < span(base, n) <= span(base, m),
    decreases m,
{
    if n < m {
        lemma_span_grows(base, n, (m - 1) as nat);
    } else if n > 0 {
        lemma_span_grows(base, (n - 1) as nat, (n - 1) as nat);
    }
}

/// A row of answers spells a number below 2 to the power of its length.
pub proof fn lemma_pack_bits_bound(s: Seq<bool>)
    ensures
        0 <= pack_bits(s) < span(2, s.len()),
    decreases s.len(),
{
    if s.len() > 0 {
        lemma_pack_bits_bound(s.drop_last());
    }
}

/// A row of cells spells a number below 4 to the power of its length.
pub proof fn lemma_pack_cells_bound(s: Seq<Option<PlayerSide>>)
    ensures
        0 <= pack_cells(s) < span(4, s.len()),
    decreases s.len(),
{
    if s.len() > 0 {
        lemma_pack_cells_bound(s.drop_last());
    }
}

/// Two rows of answers of one length that spell the same number are the
/// same row.
pub proof fn lemma_pack_bits_injective(a: Seq<bool>, b: Seq<bool>)
    requires
        a.len() == b.len(),
        pack_bits(a) == pack_bits(b),
    ensures
        a == b,
    decreases a.len(),
{
    if a.len() > 0 {
        lemma_pack_bits_injective(a.drop_last(), b.drop_last());
        assert(a =~= a.drop_last().push(a.last()));
        assert(b =~= b.drop_last().push(b.last()));
    } else {
        assert(a =~= b);
    }
}

/// Two rows of cells of one length that spell the same number are the
/// same row.
pub proof fn lemma_pack_cells_injective(a: Seq<Option<PlayerSide>>, b: Seq<Option<PlayerSide>>)
    requires
        a.len() == b.len(),
        pack_cells(a) == pack_cells(b),
    ensures
        a == b,
    decreases a.len(),
{
    if a.len() > 0 {
        lemma_pack_cells_injective(a.drop_last(), b.drop_last());
        assert(a =~= a.drop_last().push(a.last()));
        assert(b =~= b.drop_last().push(b.last()));
    } else {
        assert(a =~= b);
    }
}

impl Position {
    /// Whether each cell of the reserve `side` holds a ball, in the fixed
    /// order.
    pub open spec fn reserve_row(self, side: BoardSide) -> Seq<bool> {
        reserve_cells(side).map_values(|c: Index| self.occupied(c))
    }

    /// What each cell of the pyramid holds, in the fixed order.
    pub open spec fn pyramid_row(self) -> Seq<Option<PlayerSide>> {
        pyramid_cells().map_values(|c: Index| self.owner(c))
    }

    /// The number that stands for what the cells hold.
    pub open spec fn cells_key(self) -> int {
        (pack_bits(self.reserve_row(BoardSide::White)) * RESERVE_SPAN + pack_bits(
            self.reserve_row(BoardSide::Black),
        )) * PYRAMID_SPAN + pack_cells(self.pyramid_row())
    }

    /// The number that stands for this position. Two well-formed positions
    /// whose counters fit in a byte have the same key only if they are the
    /// same position.
    pub open spec fn key(self) -> int {
        (((self.cells_key() * 2 + (if self.turn == PlayerSide::White {
            0int
        } else {
            1int
        })) * 256 + self.take_back) * 256 + self.move_number) * 4 + cell_code(self.winner)
    }
}

/// The key tells positions apart: well-formed positions whose counters fit
/// in a byte, with the same key, are equal.
pub proof fn lemma_key_injective(p: Position, q: Position)
    requires
        p.wf(),
        q.wf(),
        p.take_back < 256,
        p.move_number < 256,
        q.take_back < 256,
        q.move_number < 256,
        p.key() == q.key(),
    ensures
        p == q,
{
    lemma_spans();
    lemma_pack_bits_bound(p.reserve_row(BoardSide::White));
    lemma_pack_bits_bound(p.reserve_row(BoardSide::Black));
    lemma_pack_cells_bound(p.pyramid_row());
    lemma_pack_bits_bound(q.reserve_row(BoardSide::White));
    lemma_pack_bits_bound(q.reserve_row(BoardSide::Black));
    lemma_pack_cells_bound(q.pyramid_row());
    assert(p.cells_key() == q.cells_key());
    assert(cell_code(p.winner) == cell_code(q.winner));
    assert(pack_cells(p.pyramid_row()) == pack_cells(q.pyramid_row()));
    assert(pack_bits(p.reserve_row(BoardSide::White)) == pack_bits(
        q.reserve_row(BoardSide::White),
    ));
    assert(pack_bits(p.reserve_row(BoardSide::Black)) == pack_bits(
        q.reserve_row(BoardSide::Black),
    ));
    lemma_pack_cells_injective(p.pyramid_row(), q.pyramid_row());
    lemma_pack_bits_injective(p.reserve_row(BoardSide::White), q.reserve_row(BoardSide::White));
    lemma_pack_bits_injective(p.reserve_row(BoardSide::Black), q.reserve_row(BoardSide::Black));
    assert forall|c: Index| p.owner(c) == q.owner(c) by {
        lemma_pyramid_cells_complete(c);
        if c.in_pyramid() {
            let k = pyramid_rank(c);
            assert(p.pyramid_row()[k] == p.owner(c));
            assert(q.pyramid_row()[k] == q.owner(c));
        } else if c.in_reserve() {
            lemma_reserve_cells_complete(c.b, c);
            let k = c.y * 5 + c.x;
            assert(p.reserve_row(c.b)[k] == p.occupied(c));
            assert(q.reserve_row(c.b)[k] == q.occupied(c));
            if p.occupied(c) {
                assert(p.cells.contains_key(c) && q.cells.contains_key(c));
            }
        } else {
            if p.cells.contains_key(c) {
            }
            if q.cells.contains_key(c) {
            }
        }
    }
    assert(p.cells =~= q.cells) by {
        assert forall|c: Index| p.cells.contains_key(c) == q.cells.contains_key(c) by {
            assert(p.owner(c) == q.owner(c));
        }
        assert forall|c: Index| p.cells.contains_key(c) implies p.cells[c] == q.cells[c] by {
            assert(p.owner(c) == q.owner(c));
        }
    }
}

impl Board {
    /// The number that stands for this board's position, for use as a key
    /// in a table of positions.
    pub fn key(&self) -> (r: u128)
        ensures
            r == self@.key(),
    {
        proof {
            lemma_spans();
            self.lemma_view_wf();
        }
        let white = self.reserve_key(BoardSide::White);
        let black = self.reserve_key(BoardSide::Black);
        let pyramid = self.pyramid_key();
        let cells: u128 = (white * RESERVE_SPAN + black) * PYRAMID_SPAN + pyramid;
        let turn: u128 = match self.get_turn() {
            PlayerSide::White => 0,
            PlayerSide::Black => 1,
        };
        let winner: u128 = match self.get_winner() {
            None => 0,
            Some(PlayerSide::White) => 1,
            Some(PlayerSide::Black) => 2,
        };
        (((cells * 2 + turn) * 256 + self.get_take_back() as u128) * 256
            + self.get_move_number() as u128) * 4 + winner
    }

    /// The number that the answers "does this cell hold a ball?" spell for
    /// the reserve `side`.
    fn reserve_key(&self, side: BoardSide) -> (r: u128)
        requires
            side != BoardSide::Center,
        ensures
            r == pack_bits(self@.reserve_row(side)),
            r < RESERVE_SPAN,
    {
        let cells = Board::all_indices(side);
        let ghost row = self@.reserve_row(side);
        let mut acc: u128 = 0;
        let mut k: usize = 0;
        proof {
            lemma_spans();
            lemma_reserve_cells_complete(side, cells@[0]);
            assert(row.take(0) =~= Seq::<bool>::empty());
        }
        while k < cells.len()
            invariant
                0 <= k <= cells.len(),
                cells.len() == 15,
                cells@ == reserve_cells(side),
                row == self@.reserve_row(side),
                acc == pack_bits(row.take(k as int)),
            decreases cells.len() - k,
        {
            proof {
                lemma_spans();
                lemma_pack_bits_bound(row.take(k as int));
                lemma_pack_bits_bound(row.take(k + 1));
                assert(row.take(k + 1).drop_last() =~= row.take(k as int));
                assert(row.take(k + 1).last() == self@.occupied(cells@[k as int]));
            }
            let bit: u128 = if self.is_index_full(cells[k]) {
                1
            } else {
                0
            };
            acc = 2 * acc + bit;
            k += 1;
        }
        proof {
            assert(row.take(15) =~= row);
            lemma_pack_bits_bound(row);
        }
        acc
    }

    /// The number that what the pyramid cells hold spells.
    fn pyramid_key(&self) -> (r: u128)
        ensures
            r == pack_cells(self@.pyramid_row()),
            r < PYRAMID_SPAN,
    {
        let cells = Board::all_indices(BoardSide::Center);
        let ghost row = self@.pyramid_row();
        let mut acc: u128 = 0;
        let mut k: usize = 0;
        proof {
            lemma_spans();
            lemma_pyramid_cells_complete(cells@[0]);
            assert(row.take(0) =~= Seq::<Option<PlayerSide>>::empty());
        }
        while k < cells.len()
            invariant
                0 <= k <= cells.len(),
                cells.len() == 30,
                cells@ == pyramid_cells(),
                row == self@.pyramid_row(),
                acc == pack_cells(row.take(k as int)),
            decreases cells.len() - k,
        {
            proof {
                lemma_spans();
                lemma_pack_cells_bound(row.take(k as int));
                lemma_pack_cells_bound(row.take(k + 1));
                assert(row.take(k + 1).drop_last() =~= row.take(k as int));
                assert(row.take(k + 1).last() == self@.owner(cells@[k as int]));
            }
            let code: u128 = match self.get(cells[k]) {
                None => 0,
                Some(PlayerSide::White) => 1,
                Some(PlayerSide::Black) => 2,
            };
            acc = 4 * acc + code;
            k += 1;
        }
        proof {
            assert(row.take(30) =~= row);
            lemma_pack_cells_bound(row);
        }
        acc
    }
}

} // verus!
