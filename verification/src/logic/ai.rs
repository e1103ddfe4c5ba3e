use vstd::prelude::*;
use std::collections::HashMap;
use super::amove::Move;
use super::board::Board;
use super::player_side::PlayerSide;
use super::position::Position;
use super::search::{
    branching, computer_move, computer_turn, decide, explore, is_rounded_sqrt, last_best,
    lemma_quotient_bounds, lemma_rounded_sqrt_unique, lemma_total_bounds, random_move,
    random_walk, remaining, room, rounded_mean, rounded_quotient, rounded_sqrt, search, total,
    Entry, FUEL, MOVE_CAP, WIN_SCORE,
};

verus! {

/// The table of positions that one decision has already judged, by key.
pub struct Memo {
    table: HashMap<u128, Entry>,
}

impl View for Memo {
    type V = Map<u128, Entry>;

    closed spec fn view(&self) -> Map<u128, Entry> {
        self.table@
    }
}

/// The scores as whole numbers.
pub open spec fn as_ints(scores: Seq<i32>) -> Seq<int> {
    scores.map_values(|s: i32| s as int)
}

/// No score lies beyond `bound`, either way.
pub open spec fn all_within(scores: Seq<i32>, bound: int) -> bool {
    forall|j: int| 0 <= j < scores.len() ==> -bound <= #[trigger] scores[j] <= bound
}

/// No score of the table lies beyond a win or a loss.
pub open spec fn scores_bounded(memo: Map<u128, Entry>) -> bool {
    forall|k: u128| memo.contains_key(k) ==> -WIN_SCORE <= (#[trigger] memo[k]).0 <= WIN_SCORE
}

impl Memo {
    /// No score of the table lies beyond a win or a loss.
    #[verifier::type_invariant]
    closed spec fn bounded(&self) -> bool {
        scores_bounded(self.table@)
    }

    /// An empty table.
    pub fn new() -> (r: Memo)
        ensures
            r@ == Map::<u128, Entry>::empty(),
    {
        Memo { table: HashMap::new() }
    }

    /// What the table holds for `key`, if anything.
    pub fn get(&self, key: u128) -> (r: Option<Entry>)
        ensures
            r == if self@.contains_key(key) {
                Some(self@[key])
            } else {
                None
            },
            r matches Some(entry) ==> -WIN_SCORE <= entry.0 <= WIN_SCORE,
    {
        proof {
            use_type_invariant(self);
        }
        match self.table.get(&key) {
            Some(entry) => Some(*entry),
            None => None,
        }
    }

    /// Records `entry` for `key`, in place of what was there, if its score
    /// lies between a loss and a win; tells whether it does.
    pub fn insert(&mut self, key: u128, entry: Entry) -> (kept: bool)
        ensures
            kept == (-WIN_SCORE <= entry.0 <= WIN_SCORE),
            kept ==> final(self)@ == old(self)@.insert(key, entry),
            !kept ==> final(self)@ == old(self)@,
    {
        if entry.0 < -WIN_SCORE || entry.0 > WIN_SCORE {
            return false;
        }
        let mut taken = Memo::new();
        std::mem::swap(self, &mut taken);
        proof {
            use_type_invariant(&taken);
        }
        let mut table = taken.table;
        table.insert(key, entry);
        *self = Memo { table };
        true
    }
}

/// A computer player: the side it plays, and the board it plays on.
pub struct AI {
    pub side: PlayerSide,
    pub board: Board,
}

/// The whole number nearest to the square root of `fuel`; 0 for a `fuel`
/// that is not positive.
pub fn nearest_sqrt(fuel: i32) -> (r: i32)
    ensures
        is_rounded_sqrt(fuel as int, r as int),
        r == rounded_sqrt(fuel as int),
        fuel >= 1 ==> 1 <= r <= fuel,
{
    if fuel <= 0 {
        proof {
            lemma_rounded_sqrt_unique(fuel as int, 0, 0);
        }
        return 0;
    }
    let f = fuel as i64;
    let mut r: i64 = 1;
    while r * r + r < f
        invariant
            1 <= r <= f,
            f == fuel,
            r * r - r < f,
            f <= i32::MAX,
        decreases f - r,
    {
        assert((r + 1) * (r + 1) - (r + 1) == r * r + r) by (nonlinear_arith);
        assert(r * r + r >= r + 1) by (nonlinear_arith)
            requires
                r >= 1,
        ;
        assert((r + 1) * (r + 1) + (r + 1) <= 0x7fff_ffff_ffff_ffff) by (nonlinear_arith)
            requires
                1 <= r < 0x8000_0000,
        ;
        r += 1;
    }
    proof {
        lemma_rounded_sqrt_unique(fuel as int, r as int, r as int);
    }
    r as i32
}

/// How many of `moves` candidate moves a search with `fuel` looks at: the
/// rounded square root of the fuel, but one at least, and no more than
/// there are.
pub fn candidates(fuel: i32, moves: usize) -> (r: usize)
    ensures
        r == branching(fuel as int, moves as int),
        r <= moves,
        moves >= 1 ==> r >= 1,
        fuel >= 1 ==> r <= fuel,
{
    let root = nearest_sqrt(fuel);
    let wanted: usize = if root < 1 {
        1
    } else {
        root as usize
    };
    if wanted < moves {
        wanted
    } else {
        moves
    }
}

/// The mean of the scores, rounded to the nearest whole number, halves
/// away from zero. It lies within every bound that all the scores keep.
pub fn mean(scores: &Vec<i32>) -> (r: i32)
    requires
        scores.len() > 0,
    ensures
        r == rounded_mean(as_ints(scores@)),
        forall|bound: int| #[trigger] all_within(scores@, bound) ==> -bound <= r <= bound,
{
    let ghost ints = as_ints(scores@);
    let mut sum: i128 = 0;
    let mut k: usize = 0;
    assert(ints.take(0) =~= Seq::<int>::empty());
    while k < scores.len()
        invariant
            0 <= k <= scores.len(),
            ints == as_ints(scores@),
            sum == total(ints.take(k as int)),
            -0x8000_0000 * k <= sum <= 0x7fff_ffff * k,
        decreases scores.len() - k,
    {
        assert(ints.take(k + 1).drop_last() =~= ints.take(k as int));
        assert(ints.take(k + 1).last() == scores[k as int]);
        sum = sum + scores[k] as i128;
        k += 1;
    }
    assert(ints.take(scores.len() as int) =~= ints);
    let count = scores.len() as i128;
    let q = if sum >= 0 {
        (2 * sum + count) / (2 * count)
    } else {
        -((count - 2 * sum) / (2 * count))
    };
    assert(q == rounded_quotient(sum as int, count as int));
    proof {
        lemma_total_bounds(ints, -0x8000_0000, 0x7fff_ffff);
        lemma_quotient_bounds(sum as int, count as int, -0x8000_0000, 0x7fff_ffff);
        assert forall|bound: int| #[trigger] all_within(scores@, bound) implies -bound <= q
            <= bound by {
            assert(-bound <= scores[0] <= bound);
            assert forall|j: int| 0 <= j < ints.len() implies -bound <= #[trigger] ints[j]
                <= bound by {
                assert(ints[j] == scores[j]);
            }
            lemma_total_bounds(ints, -bound, bound);
            lemma_quotient_bounds(sum as int, count as int, -bound, bound);
        }
    }
    q as i32
}

/// The sign by which a score is carried over a move: 1 if the same player
/// is to move after it, -1 if the turn has changed.
pub fn bool_to_int(b: bool) -> (r: i32)
    ensures
        r == if b {
            1int
        } else {
            -1int
        },
{
    if b {
        1
    } else {
        -1
    }
}

/// The place of the last of the greatest scores.
pub fn last_best_of(scores: &Vec<i32>) -> (r: usize)
    requires
        scores.len() > 0,
    ensures
        r == last_best(as_ints(scores@)),
        r < scores.len(),
{
    let ghost ints = as_ints(scores@);
    let mut best: usize = 0;
    let mut k: usize = 1;
    assert(last_best(ints.take(1)) == 0);
    while k < scores.len()
        invariant
            1 <= k <= scores.len(),
            ints == as_ints(scores@),
            best < k,
            best == last_best(ints.take(k as int)),
        decreases scores.len() - k,
    {
        assert(ints.take(k + 1).drop_last() =~= ints.take(k as int));
        assert(ints.take(k + 1).last() == scores[k as int]);
        assert(ints.take(k + 1)[best as int] == scores[best as int]);
        if scores[k] >= scores[best] {
            best = k;
        }
        k += 1;
    }
    assert(ints.take(scores.len() as int) =~= ints);
    best
}

impl AI {
    /// A computer player for `side`, at the start of a game.
    pub fn new(side: PlayerSide) -> (r: AI)
        ensures
            r.side == side,
            r.board@ == super::position::Position::initial(),
    {
        AI { side, board: Board::new() }
    }

    /// How the board stands for the player to move: the balls he has in
    /// reserve, less those of the opponent.
    pub fn evaluate(board: &Board) -> (r: i32)
        ensures
            r == board@.evaluate(),
            -15 <= r <= 15,
    {
        let own = board.number_of_balls_in_reserve(board.get_turn());
        let other = board.number_of_balls_in_reserve(board.get_turn().opponent());
        proof {
            broadcast use vstd::seq_lib::group_filter_ensures;
            super::geometry::lemma_reserve_cells_complete(
                super::board_side::BoardSide::White,
                super::index::Index::center(0, 0, 0),
            );
            super::geometry::lemma_reserve_cells_complete(
                super::board_side::BoardSide::Black,
                super::index::Index::center(0, 0, 0),
            );
            assert(board@.reserve_balls(board@.turn).len() <= 15);
            assert(board@.reserve_balls(board@.turn.other()).len() <= 15);
        }
        own as i32 - other as i32
    }

    /// The judgement of a board that is searched no further: how it
    /// stands, and the first move open, if there is one.
    pub fn terminate_search(board: &Board) -> (r: Entry)
        ensures
            r.0 == board@.evaluate(),
            r.1 == board@.first_move(),
            -15 <= r.0 <= 15,
    {
        let moves = board.get_valid_moves();
        if moves.len() == 0 {
            (AI::evaluate(board), None)
        } else {
            (AI::evaluate(board), Some(moves[0]))
        }
    }

    /// Searches `board` for the computer `side` with the budget `fuel` and
    /// the table `memo`: gives the score and the move chosen, and leaves in
    /// `memo` what the search has judged.
    pub fn search(board: &Board, side: PlayerSide, fuel: i32, memo: &mut Memo) -> (r: Entry)
        ensures
            r.0 == search(board@, side, fuel as int, old(memo)@).score,
            r.1 == search(board@, side, fuel as int, old(memo)@).best,
            final(memo)@ == search(board@, side, fuel as int, old(memo)@).memo,
            -WIN_SCORE <= r.0 <= WIN_SCORE,
        decreases room(fuel as int),
    {
        proof {
            board.lemma_view_wf();
        }
        let key = board.key();
        match memo.get(key) {
            Some(entry) => {
                return entry;
            },
            None => {},
        }
        let moves = board.get_valid_moves();
        if board.get_move_number() > MOVE_CAP || fuel <= 0 || moves.len() == 0 {
            return AI::terminate_search(board);
        }
        match board.get_winner() {
            Some(winner) => {
                if winner == side {
                    return (WIN_SCORE, None);
                } else {
                    return (-WIN_SCORE, None);
                }
            },
            None => {},
        }
        let n = candidates(fuel, moves.len());
        let child_fuel = fuel / (n as i32) - 1;
        let mut scores: Vec<i32> = Vec::new();
        let mut k: usize = 0;
        assert(moves@.take(n as int).take(0) =~= Seq::<Move>::empty());
        assert(as_ints(scores@) =~= Seq::<int>::empty());
        while k < n
            invariant
                0 <= k <= n <= moves.len(),
                moves@ == board@.legal_moves(),
                board@.move_number <= MOVE_CAP,
                child_fuel == (fuel as int) / (n as int) - 1,
                fuel >= 1,
                room(child_fuel as int) < room(fuel as int),
                scores.len() == k,
                forall|j: int|
                    0 <= j < scores.len() ==> -WIN_SCORE <= #[trigger] scores[j] <= WIN_SCORE,
                as_ints(scores@) == explore(
                    board@,
                    side,
                    child_fuel as int,
                    moves@.take(k as int),
                    old(memo)@,
                ).scores,
                memo@ == explore(
                    board@,
                    side,
                    child_fuel as int,
                    moves@.take(k as int),
                    old(memo)@,
                ).memo,
            decreases n - k,
        {
            let mut child = *board;
            let _ = child.make_move(moves[k]);
            assert(child@ == board@.attempt(moves@[k as int]));
            let verdict = AI::search(&child, side, child_fuel, memo);
            let mult = bool_to_int(board.get_turn() == child.get_turn());
            assert(mult * verdict.0 == if mult == 1 {
                verdict.0 as int
            } else {
                -verdict.0
            }) by (nonlinear_arith)
                requires
                    mult == 1 || mult == -1,
            ;
            let score = mult * verdict.0;
            proof {
                assert(moves@.take(k + 1).drop_last() =~= moves@.take(k as int));
                assert(moves@.take(k + 1).last() == moves@[k as int]);
                assert(as_ints(scores@.push(score)) =~= as_ints(scores@).push(score as int));
            }
            scores.push(score);
            k += 1;
        }
        assert(moves@.take(n as int) =~= board@.legal_moves().take(n as int));
        assert(all_within(scores@, WIN_SCORE as int));
        let score = mean(&scores);
        let best = Some(moves[last_best_of(&scores)]);
        let kept = memo.insert(key, (score, best));
        assert(kept);
        (score, best)
    }

    /// The move that the computer decides on for this board: a search
    /// with the full budget and a fresh table.
    pub fn choose_move(&self) -> (r: Option<Move>)
        ensures
            r == decide(self.board@, self.side),
    {
        let mut memo = Memo::new();
        let verdict = AI::search(&self.board, self.side, FUEL, &mut memo);
        verdict.1
    }

    /// Plays one move for the computer, if it has one to play, and gives
    /// the board after it. Without a move the board stays as it is.
    pub fn make_minmax_move(&mut self) -> (r: Option<Board>)
        ensures
            final(self).side == old(self).side,
            match computer_move(old(self).board@, old(self).side) {
                Some(mv) => r is Some && r.unwrap()@ == old(self).board@.after(mv)
                    && final(self).board@ == old(self).board@.after(mv),
                None => r is None && final(self).board == old(self).board,
            },
    {
        if self.board.get_turn() != self.side || self.board.is_game_over() {
            return None;
        }
        match self.choose_move() {
            Some(mv) => {
                if !self.board.has_room_for(mv) {
                    return None;
                }
                match self.board.make_move(mv) {
                    Ok(()) => Some(self.board),
                    Err(_) => None,
                }
            },
            None => None,
        }
    }

    /// Plays for the computer until it hands over: for as long as it is
    /// its turn, the game is open and it has a move to play. Gives the
    /// board as it then stands.
    pub fn minmax_moves(&mut self) -> (r: Board)
        ensures
            final(self).side == old(self).side,
            r == final(self).board,
            r@ == computer_turn(old(self).board@, old(self).side),
    {
        loop
            invariant
                self.side == old(self).side,
                computer_turn(self.board@, self.side) == computer_turn(
                    old(self).board@,
                    old(self).side,
                ),
            ensures
                self.side == old(self).side,
                self.board@ == computer_turn(old(self).board@, old(self).side),
            decreases remaining(self.board@).0, remaining(self.board@).1, remaining(self.board@).2,
        {
            proof {
                self.board.lemma_view_wf();
            }
            match self.make_minmax_move() {
                Some(_) => {},
                None => {
                    break ;
                },
            }
        }
        self.board
    }

    /// The move that the number `r` picks among `moves`.
    pub fn pick(moves: &Vec<Move>, r: usize) -> (mv: Move)
        requires
            moves.len() > 0,
        ensures
            mv == moves[(r as int) % (moves.len() as int)],
    {
        moves[r % moves.len()]
    }

    /// Plays the move that the number `r` picks among those open, if it is
    /// the computer's turn and a move is open. Tells whether a move was
    /// played.
    pub fn random_step(&mut self, r: usize) -> (played: bool)
        ensures
            final(self).side == old(self).side,
            match random_move(old(self).board@, old(self).side, r) {
                Some(mv) => played && final(self).board@ == old(self).board@.after(mv),
                None => !played && final(self).board == old(self).board,
            },
    {
        if self.board.get_turn() != self.side {
            return false;
        }
        let moves = self.board.get_valid_moves();
        if moves.len() == 0 {
            return false;
        }
        let mv = AI::pick(&moves, r);
        if !self.board.has_room_for(mv) {
            return false;
        }
        self.board.make_move(mv).is_ok()
    }

    /// Plays moves picked at random for the computer, until none is
    /// played: until it is no more the computer's turn, no move is open,
    /// the game is won or the move counter is full. Gives the board as it
    /// then stands, reached by a walk of picked moves.
    pub fn make_random_moves(&mut self) -> (r: Board)
        ensures
            final(self).side == old(self).side,
            r == final(self).board,
            exists|draws: Seq<usize>| r@ == random_walk(old(self).board@, old(self).side, draws),
            r@.turn != old(self).side || r@.legal_moves().len() == 0 || r@.winner is Some
                || r@.move_number == u8::MAX,
    {
        let ghost mut draws: Seq<usize> = Seq::empty();
        loop
            invariant
                self.side == old(self).side,
                self.board@ == random_walk(old(self).board@, old(self).side, draws),
            ensures
                self.side == old(self).side,
                self.board@ == random_walk(old(self).board@, old(self).side, draws),
                self.board@.turn != self.side || self.board@.legal_moves().len() == 0
                    || self.board@.winner is Some || self.board@.move_number == u8::MAX,
            decreases remaining(self.board@).0, remaining(self.board@).1, remaining(self.board@).2,
        {
            proof {
                self.board.lemma_view_wf();
            }
            let r = crate::chance::random_usize();
            proof {
                let p = self.board@;
                let n = p.legal_moves().len() as int;
                if p.winner is None && n > 0 {
                    super::laws::lemma_legal_moves_are_accepted(p, (r as int) % n);
                }
                assert(draws.push(r).drop_last() =~= draws);
            }
            if !self.random_step(r) {
                break ;
            }
            proof {
                draws = draws.push(r);
            }
        }
        self.board
    }
}

} // verus!
