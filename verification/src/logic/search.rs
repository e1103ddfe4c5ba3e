use vstd::prelude::*;
use super::amove::Move;
use super::player_side::PlayerSide;
use super::position::Position;

verus! {

/// Beyond this many moves a position is judged as it stands.
pub const MOVE_CAP: u8 = 200;

/// The score of a won game; that of a lost one is its negative.
pub const WIN_SCORE: i32 = 1000;

/// The budget of one decision.
pub const FUEL: i32 = 1_000_000;

/// What is remembered of a position: its score and the move chosen there.
pub type Entry = (i32, Option<Move>);

/// What a search of one position gives: its score, the move chosen, and
/// the table of remembered positions as the search leaves it.
pub struct Verdict {
    pub score: int,
    pub best: Option<Move>,
    pub memo: Map<u128, Entry>,
}

/// What the search of the candidate moves of one position gives: a score
/// for each candidate, seen from the player to move there, and the table
/// as these searches leave it.
pub struct Brood {
    pub scores: Seq<int>,
    pub memo: Map<u128, Entry>,
}

/// `r` is the whole number nearest to the square root of `f`: for a
/// positive `f`, the one with `(r - 1/2)^2 < f < (r + 1/2)^2`, which among
/// whole numbers is `r^2 - r < f <= r^2 + r`. For an `f` that is not
/// positive it is 0.
pub open spec fn is_rounded_sqrt(f: int, r: int) -> bool {
    if f <= 0 {
        r == 0
    } else {
        r >= 0 && r * r - r < f <= r * r + r
    }
}

/// The whole number nearest to the square root of `f`.
pub open spec fn rounded_sqrt(f: int) -> int {
    choose|r: int| is_rounded_sqrt(f, r)
}

/// A number has one nearest whole square root.
pub proof fn lemma_rounded_sqrt_unique(f: int, r: int, s: int)
    requires
        is_rounded_sqrt(f, r),
        is_rounded_sqrt(f, s),
    ensures
        r == s,
        rounded_sqrt(f) == r,
{
    let t = rounded_sqrt(f);
    assert(is_rounded_sqrt(f, t));
    if f > 0 {
        lemma_between_squares(f, r, s);
        lemma_between_squares(f, r, t);
    }
}

/// Two whole numbers whose squares bracket `f` alike are one number.
proof fn lemma_between_squares(f: int, r: int, s: int)
    requires
        r >= 0,
        s >= 0,
        r * r - r < f <= r * r + r,
        s * s - s < f <= s * s + s,
    ensures
        r == s,
{
    assert(r == s) by (nonlinear_arith)
        requires
            r >= 0,
            s >= 0,
            r * r - r < f <= r * r + r,
            s * s - s < f <= s * s + s,
    {
        if r < s {
            assert(r + 1 <= s);
            assert((r + 1) * (r + 1) <= s * s);
            assert(r * r + r <= s * s - s);
        } else if s < r {
            assert(s + 1 <= r);
            assert((s + 1) * (s + 1) <= r * r);
            assert(s * s + s <= r * r - r);
        }
    }
}

/// How many of `moves` candidate moves a search with `fuel` looks at: the
/// rounded square root of the fuel, but one at least, and no more than
/// there are.
pub open spec fn branching(fuel: int, moves: int) -> int {
    let wanted = if rounded_sqrt(fuel) < 1 {
        1
    } else {
        rounded_sqrt(fuel)
    };
    if wanted < moves {
        wanted
    } else {
        moves
    }
}

/// The sum of the scores.
pub open spec fn total(scores: Seq<int>) -> int
    decreases scores.len(),
{
    if scores.len() == 0 {
        0
    } else {
        total(scores.drop_last()) + scores.last()
    }
}

/// `sum / count`, rounded to the nearest whole number, halves away from
/// zero.
pub open spec fn rounded_quotient(sum: int, count: int) -> int {
    if sum >= 0 {
        (2 * sum + count) / (2 * count)
    } else {
        -((count - 2 * sum) / (2 * count))
    }
}

/// The sum of scores that all lie between two bounds lies between as many
/// times the bounds.
pub proof fn lemma_total_bounds(scores: Seq<int>, low: int, high: int)
    requires
        forall|j: int| 0 <= j < scores.len() ==> low <= #[trigger] scores[j] <= high,
    ensures
        low * scores.len() <= total(scores) <= high * scores.len(),
    decreases scores.len(),
{
    if scores.len() > 0 {
        let rest = scores.drop_last();
        assert forall|j: int| 0 <= j < rest.len() implies low <= #[trigger] rest[j] <= high by {
            assert(rest[j] == scores[j]);
        }
        lemma_total_bounds(rest, low, high);
        assert(low <= scores[scores.len() - 1] <= high);
        assert(low * scores.len() == low * rest.len() + low) by (nonlinear_arith)
            requires
                scores.len() == rest.len() + 1,
        ;
        assert(high * scores.len() == high * rest.len() + high) by (nonlinear_arith)
            requires
                scores.len() == rest.len() + 1,
        ;
    }
}

/// The rounded quotient of a sum that lies between `count` times two whole
/// bounds lies between the bounds; and it is the whole number nearest to
/// the exact quotient.
pub proof fn lemma_quotient_bounds(sum: int, count: int, low: int, high: int)
    requires
        count > 0,
        low <= 0 <= high,
        low * count <= sum <= high * count,
    ensures
        low <= rounded_quotient(sum, count) <= high,
        -count <= 2 * (sum - rounded_quotient(sum, count) * count) <= count,
{
    let q = rounded_quotient(sum, count);
    assert(low <= q <= high && -count <= 2 * (sum - q * count) <= count) by (nonlinear_arith)
        requires
            count > 0,
            low <= 0 <= high,
            low * count <= sum <= high * count,
            q == if sum >= 0 {
                (2 * sum + count) / (2 * count)
            } else {
                -((count - 2 * sum) / (2 * count))
            },
    {
        if sum >= 0 {
            let a = 2 * sum + count;
            let b = 2 * count;
            assert(a == b * (a / b) + a % b);
            assert(0 <= a % b < b);
        } else {
            let a = count - 2 * sum;
            let b = 2 * count;
            assert(a == b * (a / b) + a % b);
            assert(0 <= a % b < b);
        }
    }
}

/// The mean of the scores, rounded to the nearest whole number, halves
/// away from zero.
pub open spec fn rounded_mean(scores: Seq<int>) -> int {
    rounded_quotient(total(scores), scores.len() as int)
}

/// The place of the last of the greatest scores.
pub open spec fn last_best(scores: Seq<int>) -> int
    decreases scores.len(),
{
    if scores.len() <= 1 {
        0
    } else {
        let earlier = last_best(scores.drop_last());
        if scores.last() >= scores[earlier] {
            scores.len() - 1
        } else {
            earlier
        }
    }
}

/// The place that `last_best` gives holds a score that none exceeds and
/// none after it equals.
pub proof fn lemma_last_best(scores: Seq<int>)
    requires
        scores.len() > 0,
    ensures
        0 <= last_best(scores) < scores.len(),
        forall|j: int|
            0 <= j < scores.len() ==> #[trigger] scores[j] <= scores[last_best(scores)],
        forall|j: int|
            last_best(scores) < j < scores.len() ==> #[trigger] scores[j] < scores[last_best(
                scores,
            )],
    decreases scores.len(),
{
    if scores.len() > 1 {
        lemma_last_best(scores.drop_last());
        let earlier = last_best(scores.drop_last());
        assert forall|j: int| 0 <= j < scores.len() implies #[trigger] scores[j]
            <= scores[last_best(scores)] by {
            if j < scores.len() - 1 {
                assert(scores.drop_last()[j] == scores[j]);
            }
        }
        assert forall|j: int| last_best(scores) < j < scores.len() implies #[trigger] scores[j]
            < scores[last_best(scores)] by {
            if j < scores.len() - 1 {
                assert(scores.drop_last()[j] == scores[j]);
            }
        }
    }
}

impl Position {
    /// How the position stands for the player to move: the balls he has in
    /// reserve, less those of the opponent.
    pub open spec fn evaluate(self) -> int {
        self.reserve_count(self.turn) - self.reserve_count(self.turn.other())
    }

    /// The first move open to the player to move, if there is one.
    pub open spec fn first_move(self) -> Option<Move> {
        if self.legal_moves().len() > 0 {
            Some(self.legal_moves()[0])
        } else {
            None
        }
    }

    /// The position that trying `mv` leads to: the one after it if it is
    /// accepted, this one if not.
    pub open spec fn attempt(self, mv: Move) -> Position {
        match self.play(mv) {
            Ok(next) => next,
            Err(_) => self,
        }
    }

    /// The key of the position as the table of remembered positions holds
    /// it.
    pub open spec fn memo_key(self) -> u128 {
        self.key() as u128
    }
}

/// What is left of a budget, as a measure that shrinks.
pub open spec fn room(fuel: int) -> nat {
    if fuel < 0 {
        0
    } else {
        (fuel + 1) as nat
    }
}

/// The search of one position for the computer `side`, with a budget and
/// a table of remembered positions.
///
/// A remembered position gives what is remembered of it. Past the move
/// cap, out of fuel or with no move to make, the position is judged as it
/// stands, with its first move. A won game scores `WIN_SCORE` if `side`
/// has won it, and its negative if not. Otherwise the first candidates are
/// each tried and searched in turn with an equal share of the fuel, less
/// one; the score is the rounded mean of theirs, the move the last of the
/// best, and the position is remembered with both.
pub open spec fn search(p: Position, side: PlayerSide, fuel: int, memo: Map<u128, Entry>) -> Verdict
    decreases room(fuel), 0nat,
{
    if memo.contains_key(p.memo_key()) {
        Verdict { score: memo[p.memo_key()].0 as int, best: memo[p.memo_key()].1, memo }
    } else if p.move_number > MOVE_CAP || fuel <= 0 || p.legal_moves().len() == 0 {
        Verdict { score: p.evaluate(), best: p.first_move(), memo }
    } else if p.winner is Some {
        Verdict {
            score: if p.winner == Some(side) {
                WIN_SCORE as int
            } else {
                -WIN_SCORE
            },
            best: None,
            memo,
        }
    } else {
        let n = branching(fuel, p.legal_moves().len() as int);
        let brood = explore(p, side, fuel / n - 1, p.legal_moves().take(n), memo);
        let score = rounded_mean(brood.scores);
        let best = Some(p.legal_moves()[last_best(brood.scores)]);
        Verdict { score, best, memo: brood.memo.insert(p.memo_key(), (score as i32, best)) }
    }
}

/// The search of the candidate moves of `p`, one after the other, each
/// with the table as the one before left it. A candidate's score is that
/// of the position it leads to, negated if the turn has changed.
pub open spec fn explore(
    p: Position,
    side: PlayerSide,
    fuel: int,
    candidates: Seq<Move>,
    memo: Map<u128, Entry>,
) -> Brood
    decreases room(fuel), 1 + candidates.len(),
{
    if candidates.len() == 0 {
        Brood { scores: Seq::empty(), memo }
    } else {
        let before = explore(p, side, fuel, candidates.drop_last(), memo);
        let child = p.attempt(candidates.last());
        let verdict = search(child, side, fuel, before.memo);
        let score = if child.turn != p.turn {
            -verdict.score
        } else {
            verdict.score
        };
        Brood { scores: before.scores.push(score), memo: verdict.memo }
    }
}


/// The move that the computer `side` decides on in the position `p`: the
/// one that a search with the full budget and an empty table chooses.
pub open spec fn decide(p: Position, side: PlayerSide) -> Option<Move> {
    search(p, side, FUEL as int, Map::empty()).best
}

/// The most that the move counter can hold.
pub open spec fn counter_limit() -> nat {
    u8::MAX as nat
}

/// The move that the computer `side` plays in `p`, if it plays one: the
/// move it decides on, provided it is its turn, the game is open, the
/// rules accept the move and the move counter has room for it.
pub open spec fn computer_move(p: Position, side: PlayerSide) -> Option<Move> {
    if p.turn != side || p.winner is Some {
        None
    } else {
        match decide(p, side) {
            Some(mv) => if p.rejection(mv) is None && p.has_room(mv, counter_limit()) {
                Some(mv)
            } else {
                None
            },
            None => None,
        }
    }
}

/// What is left to play in a position, as a measure that every accepted
/// move shrinks: whether the game is open, the room of the move counter,
/// the bonus removals owed.
pub open spec fn remaining(p: Position) -> (nat, nat, nat) {
    (
        if p.winner is None {
            1
        } else {
            0
        },
        if p.move_number <= counter_limit() {
            (counter_limit() - p.move_number) as nat
        } else {
            0
        },
        p.take_back,
    )
}

/// The position in which the computer `side` hands over: it plays move
/// after move, for as long as it is its turn, the game is open and it has
/// a move to play.
pub open spec fn computer_turn(p: Position, side: PlayerSide) -> Position
    decreases remaining(p).0, remaining(p).1, remaining(p).2,
{
    match computer_move(p, side) {
        Some(mv) => computer_turn(p.after(mv), side),
        None => p,
    }
}

/// The move that the number `r` picks for the computer `side` in `p`, if
/// it picks one: the move at place `r` modulo their number among the moves
/// open, provided it is the computer's turn, a move is open, the rules
/// accept the move and the move counter has room for it.
pub open spec fn random_move(p: Position, side: PlayerSide, r: usize) -> Option<Move> {
    let n = p.legal_moves().len() as int;
    if p.turn == side && n > 0 && p.rejection(p.legal_moves()[(r as int) % n]) is None
        && p.has_room(p.legal_moves()[(r as int) % n], counter_limit()) {
        Some(p.legal_moves()[(r as int) % n])
    } else {
        None
    }
}

/// The position that the numbers `draws` lead the computer `side` to from
/// `p`: each number in turn picks a move, which is played if there is one.
pub open spec fn random_walk(p: Position, side: PlayerSide, draws: Seq<usize>) -> Position
    decreases draws.len(),
{
    if draws.len() == 0 {
        p
    } else {
        let q = random_walk(p, side, draws.drop_last());
        match random_move(q, side, draws.last()) {
            Some(mv) => q.after(mv),
            None => q,
        }
    }
}

} // verus!
