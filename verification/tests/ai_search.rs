use pylos::logic::ai::{bool_to_int, candidates, last_best_of, mean, nearest_sqrt, Memo, AI};
use pylos::logic::amove::Move;
use pylos::logic::board::Board;
use pylos::logic::player_side::PlayerSide;
use pylos::logic::search::{FUEL, MOVE_CAP, WIN_SCORE};

fn replay(moves: &[Move]) -> Board {
    let mut board = Board::new();
    for mv in moves {
        assert!(board.make_move(*mv).is_ok());
    }
    board
}

fn one_ball_one_place() -> Board {
    replay(&[
        Move::new_wrc((0, 0), (2, 2, 0)),
        Move::new_brc((0, 0), (1, 1, 0)),
        Move::new_wrc((1, 0), (2, 1, 0)),
        Move::new_brc((1, 0), (0, 2, 0)),
        Move::new_wrc((2, 0), (0, 1, 0)),
        Move::new_brc((2, 0), (1, 2, 0)),
        Move::new_wcc((0, 1, 0), (1, 1, 1)),
        Move::new_brc((3, 0), (1, 3, 0)),
        Move::new_wrc((3, 0), (0, 1, 0)),
        Move::new_brc((4, 0), (2, 3, 0)),
        Move::new_wcc((0, 1, 0), (1, 2, 1)),
        Move::new_brc((0, 1), (3, 3, 0)),
        Move::new_wrc((4, 0), (0, 3, 0)),
        Move::new_brc((1, 1), (0, 2, 1)),
        Move::new_wrc((0, 1), (0, 1, 0)),
        Move::new_brc((2, 1), (0, 0, 0)),
        Move::new_wrc((1, 1), (1, 0, 0)),
        Move::new_bcc((3, 3, 0), (0, 1, 1)),
        Move::new_wrc((2, 1), (3, 1, 0)),
        Move::new_brc((3, 1), (3, 0, 0)),
        Move::new_wrc((3, 1), (3, 2, 0)),
        Move::new_wcr((3, 1, 0), (2, 1)),
        Move::new_wcr((3, 2, 0), (3, 1)),
        Move::new_brc((4, 1), (3, 1, 0)),
        Move::new_wrc((2, 1), (3, 2, 0)),
        Move::new_brc((0, 2), (3, 3, 0)),
        Move::new_wcc((3, 2, 0), (0, 0, 1)),
        Move::new_bcc((3, 0, 0), (0, 1, 2)),
        Move::new_wrc((3, 1), (2, 0, 0)),
        Move::new_brc((1, 2), (3, 0, 0)),
        Move::new_wcc((1, 0, 0), (2, 0, 1)),
        Move::new_brc((2, 2), (1, 0, 0)),
        Move::new_wrc((4, 1), (1, 0, 1)),
        Move::new_brc((3, 2), (3, 2, 0)),
        Move::new_wcc((2, 0, 1), (0, 0, 2)),
        Move::new_brc((4, 2), (2, 1, 1)),
        Move::new_wrc((0, 2), (2, 2, 1)),
        Move::new_bcc((3, 0, 0), (1, 1, 2)),
        Move::new_wrc((1, 2), (3, 0, 0)),
        Move::new_wrc((2, 2), (2, 0, 1)),
        Move::new_wrc((3, 2), (1, 0, 2)),
    ])
}

#[test]
fn the_only_placement_is_chosen() {
    let board = one_ball_one_place();
    assert_eq!(board.number_of_balls_in_reserve(PlayerSide::White), 1);
    assert_eq!(board.get_valid_moves().len(), 1);
    let ai = AI {
        side: PlayerSide::White,
        board,
    };
    assert_eq!(ai.choose_move(), Some(Move::new_wrc((4, 2), (0, 0, 3))));

    let mut memo = Memo::new();
    let verdict = AI::search(&board, PlayerSide::White, FUEL, &mut memo);
    assert_eq!(verdict, (WIN_SCORE, Some(Move::new_wrc((4, 2), (0, 0, 3)))));
    assert_eq!(memo.get(board.key()), Some(verdict));
}

#[test]
fn the_computer_plays_until_it_has_won() {
    let mut ai = AI {
        side: PlayerSide::White,
        board: one_ball_one_place(),
    };
    let end = ai.minmax_moves();
    assert_eq!(end.get_winner(), Some(PlayerSide::White));
    assert_eq!(end, ai.board);
    assert_eq!(end.get_move_number(), one_ball_one_place().get_move_number());

    let mut idle = AI {
        side: PlayerSide::Black,
        board: one_ball_one_place(),
    };
    assert_eq!(idle.make_minmax_move(), None);
    assert_eq!(idle.minmax_moves(), one_ball_one_place());
}

#[test]
fn a_lost_game_scores_the_loss() {
    let mut board = one_ball_one_place();
    assert!(board.make_move(Move::new_wrc((4, 2), (0, 0, 3))).is_ok());
    let mut memo = Memo::new();
    assert_eq!(
        AI::search(&board, PlayerSide::Black, 10, &mut memo),
        (-WIN_SCORE, None)
    );
    assert_eq!(
        AI::search(&board, PlayerSide::White, 10, &mut memo),
        (WIN_SCORE, None)
    );
    assert_eq!(memo.get(board.key()), None);
    assert_eq!(
        AI::search(&board, PlayerSide::White, 0, &mut memo),
        (1, Some(Move::new_wrc((4, 2), (0, 0, 3))))
    );
}

#[test]
fn nearest_square_roots() {
    assert_eq!(nearest_sqrt(1), 1);
    assert_eq!(nearest_sqrt(2), 1);
    assert_eq!(nearest_sqrt(3), 2);
    assert_eq!(nearest_sqrt(6), 2);
    assert_eq!(nearest_sqrt(7), 3);
    assert_eq!(nearest_sqrt(12), 3);
    assert_eq!(nearest_sqrt(13), 4);
    assert_eq!(nearest_sqrt(624), 25);
    assert_eq!(nearest_sqrt(999_000), 999);
    assert_eq!(nearest_sqrt(999_001), 1000);
    assert_eq!(nearest_sqrt(1_000_000), 1000);
    assert_eq!(nearest_sqrt(1_001_000), 1000);
    assert_eq!(nearest_sqrt(1_001_001), 1001);
    for fuel in 1..5000 {
        let r = nearest_sqrt(fuel);
        assert_eq!(r, (fuel as f64).sqrt().round() as i32);
    }
}

#[test]
fn the_sign_of_a_carried_score() {
    assert_eq!(bool_to_int(true), 1);
    assert_eq!(bool_to_int(false), -1);
}

#[test]
fn how_many_candidates() {
    assert_eq!(candidates(0, 16), 1);
    assert_eq!(candidates(-3, 16), 1);
    assert_eq!(candidates(100, 0), 0);
    assert_eq!(nearest_sqrt(0), 0);
    assert_eq!(nearest_sqrt(-9), 0);
    assert_eq!(nearest_sqrt(i32::MAX), 46341);
    assert_eq!(candidates(1, 16), 1);
    assert_eq!(candidates(3, 16), 2);
    assert_eq!(candidates(100, 16), 10);
    assert_eq!(candidates(FUEL, 16), 16);
    assert_eq!(candidates(FUEL, 1), 1);
    assert_eq!(candidates(624, 40), 25);
}

#[test]
fn rounded_means() {
    assert_eq!(mean(&vec![1, 2]), 2);
    assert_eq!(mean(&vec![-1, -2]), -2);
    assert_eq!(mean(&vec![1, 1, 2]), 1);
    assert_eq!(mean(&vec![1, 2, 2]), 2);
    assert_eq!(mean(&vec![-1, -1, -2]), -1);
    assert_eq!(mean(&vec![-1000]), -1000);
    assert_eq!(mean(&vec![1000, -1000]), 0);
    assert_eq!(mean(&vec![0, 1]), 1);
    assert_eq!(mean(&vec![0, -1]), -1);
    assert_eq!(mean(&vec![0, 0, 1]), 0);
    assert_eq!(mean(&vec![5, -3, 7, 2]), 3);
    assert_eq!(mean(&vec![i32::MAX, i32::MAX]), i32::MAX);
    assert_eq!(mean(&vec![i32::MIN, i32::MIN, i32::MIN]), i32::MIN);
    assert_eq!(mean(&vec![i32::MIN, i32::MAX]), -1);
    for a in -20..20 {
        for b in -20..20 {
            for c in -20..20 {
                let exact = ((a + b + c) as f64 / 3.0).round() as i32;
                assert_eq!(mean(&vec![a, b, c]), exact);
            }
            let exact = ((a + b) as f64 / 2.0).round() as i32;
            assert_eq!(mean(&vec![a, b]), exact);
        }
    }
}

#[test]
fn the_last_of_the_best() {
    assert_eq!(last_best_of(&vec![3]), 0);
    assert_eq!(last_best_of(&vec![3, 5, 5, 1]), 2);
    assert_eq!(last_best_of(&vec![5, 5, 5]), 2);
    assert_eq!(last_best_of(&vec![9, 5, 5]), 0);
    assert_eq!(last_best_of(&vec![-9, -5, -7]), 1);
}

#[test]
fn how_a_board_stands() {
    let start = Board::new();
    assert_eq!(AI::evaluate(&start), 0);
    let after = replay(&[Move::new_wrc((0, 0), (0, 0, 0))]);
    assert_eq!(after.get_turn(), PlayerSide::Black);
    assert_eq!(AI::evaluate(&after), 1);
    assert_eq!(
        AI::terminate_search(&after),
        (1, Some(Move::new_brc((0, 0), (1, 0, 0))))
    );
    assert_eq!(
        AI::terminate_search(&start),
        (0, Some(Move::new_wrc((0, 0), (0, 0, 0))))
    );
}

#[test]
fn search_without_fuel_judges_the_board() {
    let start = Board::new();
    let mut memo = Memo::new();
    assert_eq!(
        AI::search(&start, PlayerSide::White, 0, &mut memo),
        (0, Some(Move::new_wrc((0, 0), (0, 0, 0))))
    );
    assert_eq!(
        AI::search(&start, PlayerSide::White, -5, &mut memo),
        (0, Some(Move::new_wrc((0, 0), (0, 0, 0))))
    );
    assert_eq!(memo.get(start.key()), None);
}

#[test]
fn search_with_one_unit_looks_at_the_first_move() {
    let start = Board::new();
    let mut memo = Memo::new();
    let first = Move::new_wrc((0, 0), (0, 0, 0));
    assert_eq!(
        AI::search(&start, PlayerSide::White, 1, &mut memo),
        (-1, Some(first))
    );
    assert_eq!(memo.get(start.key()), Some((-1, Some(first))));
    let child = replay(&[first]);
    assert_eq!(memo.get(child.key()), None);
}

#[test]
fn search_with_little_fuel_averages_and_takes_the_last_best() {
    let start = Board::new();
    let mut memo = Memo::new();
    // Fuel 12 looks at three moves, each with fuel 3; there two replies are
    // looked at, each judged as it stands.
    let verdict = AI::search(&start, PlayerSide::White, 12, &mut memo);
    assert_eq!(verdict, (0, Some(Move::new_wrc((0, 0), (2, 0, 0)))));
    let child = replay(&[Move::new_wrc((0, 0), (1, 0, 0))]);
    assert_eq!(
        memo.get(child.key()),
        Some((0, Some(Move::new_brc((0, 0), (2, 0, 0)))))
    );
}

#[test]
fn what_is_remembered_is_given_back() {
    let start = Board::new();
    let mut memo = Memo::new();
    let planted = (7, Some(Move::new_wrc((0, 0), (3, 3, 0))));
    assert!(!memo.insert(start.key(), (1001, None)));
    assert!(!memo.insert(start.key(), (-1001, None)));
    assert_eq!(memo.get(start.key()), None);
    assert!(memo.insert(start.key(), (-1000, None)));
    assert!(memo.insert(start.key(), planted));
    assert_eq!(AI::search(&start, PlayerSide::White, FUEL, &mut memo), planted);
    assert_eq!(AI::search(&start, PlayerSide::Black, 0, &mut memo), planted);
}

#[test]
fn past_the_cap_a_board_is_judged_as_it_stands() {
    assert_eq!(MOVE_CAP, 200);
    assert_eq!(WIN_SCORE, 1000);
    assert_eq!(FUEL, 1_000_000);
}

#[test]
fn a_full_decision_from_the_start() {
    let mut ai = AI::new(PlayerSide::White);
    let before = ai.board;
    let next = ai.make_minmax_move();
    assert!(next.is_some());
    assert_eq!(next.unwrap().get_move_number(), 1);
    assert_eq!(next.unwrap().get_turn(), PlayerSide::Black);
    assert_eq!(ai.board, next.unwrap());
    let reached = before
        .get_valid_moves()
        .iter()
        .any(|mv| {
            let mut board = before;
            board.make_move(*mv).is_ok() && board == ai.board
        });
    assert!(reached);
}

#[test]
fn random_play_hands_the_turn_over() {
    let mut ai = AI::new(PlayerSide::White);
    let board = ai.make_random_moves();
    assert_eq!(board, ai.board);
    assert!(board.get_move_number() >= 1);
    assert!(
        board.get_turn() != PlayerSide::White
            || board.get_valid_moves().is_empty()
            || board.is_game_over()
    );
    assert_eq!(board.number_of_balls_in_reserve(PlayerSide::Black), 15);

    let mut idle = AI::new(PlayerSide::Black);
    assert_eq!(idle.make_random_moves(), Board::new());
    assert!(!idle.random_step(3));
}

#[test]
fn a_number_picks_a_move() {
    let moves = Board::new().get_valid_moves();
    assert_eq!(AI::pick(&moves, 0), moves[0]);
    assert_eq!(AI::pick(&moves, 17), moves[1]);
    assert_eq!(AI::pick(&moves, 31), moves[15]);
    let mut ai = AI::new(PlayerSide::White);
    assert!(ai.random_step(21));
    assert_eq!(ai.board.get(moves[5].to.index), Some(PlayerSide::White));
}
