use pylos::logic::amove::Move;
use pylos::logic::ball::Ball;
use pylos::logic::board::Board;
use pylos::logic::board_side::BoardSide;
use pylos::logic::frontend::BoardFrontend;
use pylos::logic::index::Index;
use pylos::logic::player_side::PlayerSide;
use pylos::logic::position::MoveError;

#[test]
fn two_balls_same_place() {
    let mut board = Board::new();
    assert!(board.make_move(Move::new_wrc((0, 0), (0, 0, 0))).is_ok());
    assert!(board.make_move(Move::new_brc((0, 0), (0, 0, 0))).is_err());
}

#[test]
fn no_children_move() {
    let mut board = Board::new();
    assert!(board.make_move(Move::new_wrc((0, 0), (0, 0, 3))).is_err());
}

#[test]
fn no_wrong_color_move() {
    let mut board = Board::new();
    assert!(board.make_move(Move::new_wrc((0, 0), (0, 1, 0))).is_ok());
    assert!(board.make_move(Move::new_wrc((1, 1), (1, 0, 0))).is_err());
}

#[test]
fn square_formed() {
    let mut board = Board::new();

    assert!(board.make_move(Move::new_wrc((0, 0), (0, 0, 0))).is_ok());
    assert!(board.make_move(Move::new_brc((0, 0), (3, 3, 0))).is_ok());
    assert!(board.make_move(Move::new_wrc((1, 0), (0, 1, 0))).is_ok());
    assert!(board.make_move(Move::new_brc((1, 0), (3, 2, 0))).is_ok());
    assert!(board.make_move(Move::new_wrc((2, 0), (1, 0, 0))).is_ok());
    assert!(board.make_move(Move::new_brc((2, 0), (2, 3, 0))).is_ok());
    assert!(!board.take_back_rule());

    assert!(board.make_move(Move::new_wrc((3, 0), (1, 1, 0))).is_ok());
    assert!(board.square_is_formed(Ball::new_wc(1, 1, 0)));
    assert!(board.take_back_rule());
}

#[test]
fn skip_take_back() {
    let mut board = Board::new();

    assert!(board.make_move(Move::new_wrc((0, 0), (0, 2, 0))).is_ok());
    assert!(board.make_move(Move::new_brc((0, 0), (1, 2, 0))).is_ok());

    assert!(board.make_move(Move::new_wrc((1, 0), (1, 0, 0))).is_ok());
    assert!(board.make_move(Move::new_brc((1, 0), (1, 1, 0))).is_ok());

    assert!(board.make_move(Move::new_wrc((2, 0), (2, 0, 0))).is_ok());
    assert!(board.make_move(Move::new_brc((2, 0), (2, 1, 0))).is_ok());

    assert!(board.make_move(Move::new_wrc((3, 0), (1, 0, 1))).is_ok());
    assert!(board.make_move(Move::new_brc((3, 0), (0, 1, 0))).is_ok());

    assert!(board.make_move(Move::new_wrc((4, 0), (0, 1, 1))).is_ok());
    assert!(board.make_move(Move::new_brc((4, 0), (2, 2, 0))).is_ok());

    assert!(board.square_is_formed(Ball::new_bc(2, 2, 0)));
    assert!(board.take_back_rule());
    assert!(board.take_back_is_possible(PlayerSide::Black));
    assert_eq!(board.get_take_back(), 2);

    assert!(board.make_move(Move::new_bcr((2, 2, 0), (4, 0))).is_ok());

    assert!(!board.take_back_rule());
    assert!(!board.take_back_is_possible(PlayerSide::Black));
    assert_eq!(board.get_take_back(), 0);
}

#[test]
fn skip_moves() {
    let mut board = Board::new();

    assert!(board.make_move(Move::new_wrc((0, 0), (2, 2, 0))).is_ok());
    assert!(board.make_move(Move::new_brc((0, 0), (1, 1, 0))).is_ok());
    assert!(board.make_move(Move::new_wrc((1, 0), (2, 1, 0))).is_ok());
    assert!(board.make_move(Move::new_brc((1, 0), (0, 2, 0))).is_ok());
    assert!(board.make_move(Move::new_wrc((2, 0), (0, 1, 0))).is_ok());
    assert!(board.make_move(Move::new_brc((2, 0), (1, 2, 0))).is_ok());

    assert!(board.make_move(Move::new_wcc((0, 1, 0), (1, 1, 1))).is_ok());
    assert!(!board.ball_exists(Ball::new_wc(0, 1, 0)));

    assert!(board.make_move(Move::new_brc((3, 0), (1, 3, 0))).is_ok());
    assert!(board.make_move(Move::new_wrc((3, 0), (0, 1, 0))).is_ok());
    assert!(board.make_move(Move::new_brc((4, 0), (2, 3, 0))).is_ok());
    assert!(board.make_move(Move::new_wcc((0, 1, 0), (1, 2, 1))).is_ok());
    assert!(board.make_move(Move::new_brc((0, 1), (3, 3, 0))).is_ok());
    assert!(board.make_move(Move::new_wrc((4, 0), (0, 3, 0))).is_ok());
    assert!(board.make_move(Move::new_brc((1, 1), (0, 2, 1))).is_ok());
    assert!(board.make_move(Move::new_wrc((0, 1), (0, 1, 0))).is_ok());
    assert!(board.make_move(Move::new_brc((2, 1), (0, 0, 0))).is_ok());
    assert!(board.make_move(Move::new_wrc((1, 1), (1, 0, 0))).is_ok());
    assert!(board.make_move(Move::new_bcc((3, 3, 0), (0, 1, 1))).is_ok());
    assert!(board.make_move(Move::new_wrc((2, 1), (3, 1, 0))).is_ok());
    assert!(board.make_move(Move::new_brc((3, 1), (3, 0, 0))).is_ok());
    assert!(board.make_move(Move::new_wrc((3, 1), (3, 2, 0))).is_ok());

    assert!(board.take_back_is_possible(PlayerSide::White));
    assert!(board.make_move(Move::new_wcr((3, 1, 0), (2, 1))).is_ok());
    assert!(board.make_move(Move::new_wcr((3, 2, 0), (3, 1))).is_ok());

    assert!(board.make_move(Move::new_brc((4, 1), (3, 1, 0))).is_ok());
    assert!(board.make_move(Move::new_wrc((2, 1), (3, 2, 0))).is_ok());
    assert!(board.make_move(Move::new_brc((0, 2), (3, 3, 0))).is_ok());
    assert!(board.make_move(Move::new_wcc((3, 2, 0), (0, 0, 1))).is_ok());
    assert!(board.make_move(Move::new_bcc((3, 0, 0), (0, 1, 2))).is_ok());
    assert!(board.make_move(Move::new_wrc((3, 1), (2, 0, 0))).is_ok());
    assert!(board.make_move(Move::new_brc((1, 2), (3, 0, 0))).is_ok());
    assert!(board.make_move(Move::new_wcc((1, 0, 0), (2, 0, 1))).is_ok());
    assert!(board.make_move(Move::new_brc((2, 2), (1, 0, 0))).is_ok());
    assert!(board.make_move(Move::new_wrc((4, 1), (1, 0, 1))).is_ok());
    assert!(board.make_move(Move::new_brc((3, 2), (3, 2, 0))).is_ok());
    assert!(board.make_move(Move::new_wcc((2, 0, 1), (0, 0, 2))).is_ok());
    assert!(board.make_move(Move::new_brc((4, 2), (2, 1, 1))).is_ok());
    assert!(board.make_move(Move::new_wrc((0, 2), (2, 2, 1))).is_ok());
    assert!(board.make_move(Move::new_bcc((3, 0, 0), (1, 1, 2))).is_ok());
    assert!(board.make_move(Move::new_wrc((1, 2), (3, 0, 0))).is_ok());

    assert!(!board.move_is_possible(PlayerSide::Black));
    assert!(board.make_move(Move::new_wrc((2, 2), (2, 0, 1))).is_ok());
    assert!(!board.move_is_possible(PlayerSide::Black));
    assert!(board.make_move(Move::new_wrc((3, 2), (1, 0, 2))).is_ok());
    assert!(!board.move_is_possible(PlayerSide::Black));
    assert!(board.make_move(Move::new_wrc((4, 2), (0, 0, 3))).is_ok());
    assert!(board.is_game_over());
}

fn played(moves: &[Move]) -> Board {
    let mut board = Board::new();
    for mv in moves {
        assert!(board.make_move(*mv).is_ok());
    }
    board
}

fn before_the_apex() -> Board {
    played(&[
        Move::new_wrc((0, 0), (2, 2, 0)),
        Move::new_brc((0, 0), (1, 1, 0)),
        Move::new_wrc((1, 0), (2, 1, 0)),
        Move::new_brc((1, 0), (0, 2, 0)),
        Move::new_wrc((2, 0), (0, 1, 0)),
        Move::new_brc((2, 0), (1, 2, 0)),
        Move::new_wcc((0, 1, 0), (1, 1, 1)),
        Move::new_brc((3, 0), (1, 3, 0)),
        Move::new_wrc((3, 0), (0, 1, 0)),
        Move::new_brc((4, 0), (2, 3, 0)),
        Move::new_wcc((0, 1, 0), (1, 2, 1)),
        Move::new_brc((0, 1), (3, 3, 0)),
        Move::new_wrc((4, 0), (0, 3, 0)),
        Move::new_brc((1, 1), (0, 2, 1)),
        Move::new_wrc((0, 1), (0, 1, 0)),
        Move::new_brc((2, 1), (0, 0, 0)),
        Move::new_wrc((1, 1), (1, 0, 0)),
        Move::new_bcc((3, 3, 0), (0, 1, 1)),
        Move::new_wrc((2, 1), (3, 1, 0)),
        Move::new_brc((3, 1), (3, 0, 0)),
        Move::new_wrc((3, 1), (3, 2, 0)),
        Move::new_wcr((3, 1, 0), (2, 1)),
        Move::new_wcr((3, 2, 0), (3, 1)),
        Move::new_brc((4, 1), (3, 1, 0)),
        Move::new_wrc((2, 1), (3, 2, 0)),
        Move::new_brc((0, 2), (3, 3, 0)),
        Move::new_wcc((3, 2, 0), (0, 0, 1)),
        Move::new_bcc((3, 0, 0), (0, 1, 2)),
        Move::new_wrc((3, 1), (2, 0, 0)),
        Move::new_brc((1, 2), (3, 0, 0)),
        Move::new_wcc((1, 0, 0), (2, 0, 1)),
        Move::new_brc((2, 2), (1, 0, 0)),
        Move::new_wrc((4, 1), (1, 0, 1)),
        Move::new_brc((3, 2), (3, 2, 0)),
        Move::new_wcc((2, 0, 1), (0, 0, 2)),
        Move::new_brc((4, 2), (2, 1, 1)),
        Move::new_wrc((0, 2), (2, 2, 1)),
        Move::new_bcc((3, 0, 0), (1, 1, 2)),
        Move::new_wrc((1, 2), (3, 0, 0)),
        Move::new_wrc((2, 2), (2, 0, 1)),
        Move::new_wrc((3, 2), (1, 0, 2)),
    ])
}

#[test]
fn first_move_counts_and_passes_the_turn() {
    let mut board = Board::new();
    assert_eq!(board.get_move_number(), 0);
    assert_eq!(board.get_turn(), PlayerSide::White);
    assert_eq!(board.make_move(Move::new_wrc((0, 0), (0, 0, 0))), Ok(()));
    assert_eq!(board.get_move_number(), 1);
    assert_eq!(board.get_turn(), PlayerSide::Black);
    assert_eq!(board.get(Index::new_c(0, 0, 0)), Some(PlayerSide::White));
    assert_eq!(board.get(Ball::new_wr(0, 0).index), None);
    assert_eq!(
        board.make_move(Move::new_brc((0, 0), (0, 0, 0))),
        Err(MoveError::Occupied)
    );
    assert_eq!(board.get_move_number(), 1);
    assert_eq!(board.get_turn(), PlayerSide::Black);
}

#[test]
fn level_one_on_empty_board_is_unsupported() {
    let mut board = Board::new();
    let before = board;
    assert_eq!(
        board.make_move(Move::new_wrc((0, 0), (0, 0, 1))),
        Err(MoveError::Unsupported)
    );
    assert_eq!(board, before);
    assert_eq!(
        board.make_move(Move::new_wrc((0, 0), (0, 0, 3))),
        Err(MoveError::Unsupported)
    );
}

#[test]
fn one_empty_parent_is_enough_to_refuse() {
    let mut board = played(&[
        Move::new_wrc((0, 0), (0, 0, 0)),
        Move::new_brc((0, 0), (1, 0, 0)),
        Move::new_wrc((1, 0), (0, 1, 0)),
    ]);
    assert_eq!(
        board.make_move(Move::new_brc((1, 0), (0, 0, 1))),
        Err(MoveError::Unsupported)
    );
    assert_eq!(board.make_move(Move::new_brc((1, 0), (1, 1, 0))), Ok(()));
    assert_eq!(board.make_move(Move::new_wrc((2, 0), (0, 0, 1))), Ok(()));
}

#[test]
fn fourth_ball_of_a_square_grants_two_removals() {
    let mut board = played(&[
        Move::new_wrc((0, 0), (0, 0, 0)),
        Move::new_brc((0, 0), (3, 3, 0)),
        Move::new_wrc((1, 0), (0, 1, 0)),
        Move::new_brc((1, 0), (3, 2, 0)),
        Move::new_wrc((2, 0), (1, 0, 0)),
        Move::new_brc((2, 0), (2, 3, 0)),
    ]);
    assert_eq!(board.get_take_back(), 0);
    assert_eq!(board.get_turn(), PlayerSide::White);
    assert_eq!(board.make_move(Move::new_wrc((3, 0), (1, 1, 0))), Ok(()));
    assert_eq!(board.get_take_back(), 2);
    assert_eq!(board.get_turn(), PlayerSide::White);
    assert_eq!(board.get_move_number(), 7);

    assert_eq!(
        board.make_move(Move::new_wrc((4, 0), (2, 0, 0))),
        Err(MoveError::IllegalTakeBack)
    );
    assert_eq!(board.make_move(Move::new_wcr((1, 1, 0), (0, 0))), Ok(()));
    assert_eq!(board.get_take_back(), 1);
    assert_eq!(board.get_turn(), PlayerSide::White);
    assert_eq!(board.get_move_number(), 7);
    assert_eq!(board.make_move(Move::new_wcr((0, 0, 0), (1, 0))), Ok(()));
    assert_eq!(board.get_take_back(), 0);
    assert_eq!(board.get_turn(), PlayerSide::Black);
    assert_eq!(board.get_move_number(), 7);
}

#[test]
fn every_rejection_has_its_input() {
    let mut board = Board::new();
    assert_eq!(
        board.make_move(Move::new_brc((0, 0), (0, 0, 0))),
        Err(MoveError::WrongColor)
    );
    assert_eq!(
        board.make_move(Move::new(
            PlayerSide::White,
            Ball::new_br(0, 0).index,
            Index::new_c(0, 0, 0)
        )),
        Err(MoveError::NoSuchBall)
    );
    assert_eq!(
        board.make_move(Move::new_wcc((0, 0, 0), (1, 0, 0))),
        Err(MoveError::NoSuchBall)
    );
    assert_eq!(
        board.make_move(Move::new_wrc((0, 0), (4, 0, 0))),
        Err(MoveError::InvalidTarget)
    );
    assert_eq!(
        board.make_move(Move::new_wrc((0, 0), (3, 3, 1))),
        Err(MoveError::InvalidTarget)
    );
    assert_eq!(
        board.make_move(Move::new_wrc((0, 0), (0, 0, -1))),
        Err(MoveError::InvalidTarget)
    );
    // An occupied cell of the other reserve is occupied first of all; an
    // empty one is no cell for the ball.
    assert_eq!(
        board.make_move(Move::new(
            PlayerSide::White,
            Ball::new_wr(0, 0).index,
            Ball::new_br(0, 0).index
        )),
        Err(MoveError::Occupied)
    );
    assert_eq!(
        board.make_move(Move::new(
            PlayerSide::White,
            Ball::new_wr(0, 0).index,
            Ball::new_wr(1, 0).index
        )),
        Err(MoveError::Occupied)
    );
    let mut later = played(&[
        Move::new_wrc((0, 0), (0, 0, 0)),
        Move::new_brc((0, 0), (1, 0, 0)),
    ]);
    assert_eq!(
        later.make_move(Move::new(
            PlayerSide::White,
            Ball::new_wr(1, 0).index,
            Ball::new_br(0, 0).index
        )),
        Err(MoveError::InvalidTarget)
    );
    assert_eq!(
        later.validate_move(Move::new(
            PlayerSide::White,
            Ball::new_wr(1, 0).index,
            Ball::new_br(1, 0).index
        )),
        Err(MoveError::Occupied)
    );
    assert_eq!(
        board.make_move(Move::new_wrc((0, 0), (0, 0, 1))),
        Err(MoveError::Unsupported)
    );
    assert_eq!(board.make_move(Move::new_wrc((0, 0), (0, 0, 0))), Ok(()));
    assert_eq!(
        board.make_move(Move::new_brc((0, 0), (0, 0, 0))),
        Err(MoveError::Occupied)
    );
    assert_eq!(MoveError::Occupied.message(), "The ball already exists");
    assert_eq!(MoveError::GameOver.message(), "The game is over");
}

#[test]
fn apex_wins_and_nothing_moves_after() {
    let mut board = before_the_apex();
    assert_eq!(board.get_winner(), None);
    let before = board;
    assert_eq!(board.make_move(Move::new_wrc((4, 2), (0, 0, 3))), Ok(()));
    assert_eq!(board.get_winner(), Some(PlayerSide::White));
    assert!(board.is_game_over());
    assert_eq!(board.get_turn(), before.get_turn());
    assert_eq!(board.get_move_number(), before.get_move_number());
    assert_eq!(board.get(Index::new_c(0, 0, 3)), None);
    let won = board;
    assert_eq!(
        board.make_move(Move::new_wrc((4, 2), (0, 0, 3))),
        Err(MoveError::GameOver)
    );
    assert_eq!(
        board.make_move(Move::new_brc((0, 0), (0, 0, 3))),
        Err(MoveError::WrongColor)
    );
    assert_eq!(board, won);
}

#[test]
fn stalemated_side_is_skipped() {
    let board = before_the_apex();
    assert_eq!(board.get_turn(), PlayerSide::White);
    assert!(!board.move_is_possible(PlayerSide::Black));
    assert!(board.move_is_possible(PlayerSide::White));
    assert_eq!(board.number_of_balls_in_reserve(PlayerSide::Black), 0);
    assert_eq!(board.number_of_balls_in_reserve(PlayerSide::White), 1);
    assert!(!board.move_up_is_possible(PlayerSide::Black));
    assert_eq!(
        board.get_valid_moves(),
        vec![Move::new_wrc((4, 2), (0, 0, 3))]
    );
}

#[test]
fn opening_moves_are_the_sixteen_placements() {
    let board = Board::new();
    let moves = board.get_valid_moves();
    assert_eq!(moves.len(), 16);
    let mut k = 0;
    for y in 0..4 {
        for x in 0..4 {
            assert_eq!(moves[k], Move::new_wrc((0, 0), (x, y, 0)));
            k += 1;
        }
    }
    assert_eq!(board.placements(), moves);
    assert!(board.climbs().is_empty());
    assert!(board.removals().is_empty());
}

#[test]
fn climbs_skip_cells_that_rest_on_the_ball() {
    let board = played(&[
        Move::new_wrc((0, 0), (0, 0, 0)),
        Move::new_brc((0, 0), (1, 0, 0)),
        Move::new_wrc((1, 0), (0, 1, 0)),
        Move::new_brc((1, 0), (1, 1, 0)),
        Move::new_wrc((2, 0), (3, 3, 0)),
        Move::new_brc((2, 0), (2, 3, 0)),
    ]);
    assert_eq!(board.get_turn(), PlayerSide::White);
    assert_eq!(
        board.climbs(),
        vec![Move::new_wcc((3, 3, 0), (0, 0, 1))]
    );
    assert!(board.move_up_is_possible(PlayerSide::White));
    assert!(board.move_up_is_possible(PlayerSide::Black));
    let moves = board.get_valid_moves();
    assert_eq!(moves.len(), 12);
    assert_eq!(moves[0], Move::new_wrc((3, 0), (2, 0, 0)));
    assert_eq!(moves[10], Move::new_wrc((3, 0), (0, 0, 1)));
    assert_eq!(moves[11], Move::new_wcc((3, 3, 0), (0, 0, 1)));
}

#[test]
fn removals_go_to_the_first_empty_reserve_cell() {
    let board = played(&[
        Move::new_wrc((0, 0), (0, 0, 0)),
        Move::new_brc((0, 0), (3, 3, 0)),
        Move::new_wrc((1, 0), (0, 1, 0)),
        Move::new_brc((1, 0), (3, 2, 0)),
        Move::new_wrc((2, 0), (1, 0, 0)),
        Move::new_brc((2, 0), (2, 3, 0)),
        Move::new_wrc((3, 0), (1, 1, 0)),
    ]);
    assert_eq!(
        board.get_valid_moves(),
        vec![
            Move::new_wcr((0, 0, 0), (0, 0)),
            Move::new_wcr((1, 0, 0), (0, 0)),
            Move::new_wcr((0, 1, 0), (0, 0)),
            Move::new_wcr((1, 1, 0), (0, 0)),
        ]
    );
    assert!(board.take_back_is_possible(PlayerSide::White));
    assert!(board.take_back_is_possible(PlayerSide::Black));
    assert!(board.has_ball_in_reserve(PlayerSide::White));
}

#[test]
fn cells_beneath_and_above() {
    assert_eq!(Board::parent_indices(Index::new_c(1, 2, 0)), vec![]);
    assert_eq!(
        Board::parent_indices(Index::new_c(1, 2, 1)),
        vec![
            Index::new_c(1, 2, 0),
            Index::new_c(2, 2, 0),
            Index::new_c(1, 3, 0),
            Index::new_c(2, 3, 0),
        ]
    );
    assert_eq!(Board::parent_indices(Index::new_c(3, 3, 1)), vec![]);
    assert_eq!(Board::parent_indices(Ball::new_wr(1, 1).index), vec![]);
    assert_eq!(
        Board::child_indices(Index::new_c(1, 1, 0)),
        vec![
            Index::new_c(1, 1, 1),
            Index::new_c(0, 1, 1),
            Index::new_c(1, 0, 1),
            Index::new_c(0, 0, 1),
        ]
    );
    assert_eq!(
        Board::child_indices(Index::new_c(0, 0, 0)),
        vec![Index::new_c(0, 0, 1)]
    );
    assert_eq!(
        Board::child_indices(Index::new_c(3, 0, 0)),
        vec![Index::new_c(2, 0, 1)]
    );
    assert_eq!(Board::child_indices(Index::new_c(0, 0, 3)), vec![]);
    assert_eq!(Board::child_indices(Ball::new_br(0, 0).index), vec![]);
    assert!(Board::is_child_index(
        Index::new_c(1, 1, 0),
        Index::new_c(0, 0, 1)
    ));
    assert!(!Board::is_child_index(
        Index::new_c(1, 1, 0),
        Index::new_c(2, 2, 1)
    ));
    assert!(!Board::is_child_index(
        Index::new_c(0, 0, 1),
        Index::new_c(1, 1, 0)
    ));
}

#[test]
fn cells_in_their_fixed_order() {
    let center = Board::all_indices(BoardSide::Center);
    assert_eq!(center.len(), 30);
    assert_eq!(center[0], Index::new_c(0, 0, 0));
    assert_eq!(center[1], Index::new_c(1, 0, 0));
    assert_eq!(center[4], Index::new_c(0, 1, 0));
    assert_eq!(center[15], Index::new_c(3, 3, 0));
    assert_eq!(center[16], Index::new_c(0, 0, 1));
    assert_eq!(center[19], Index::new_c(0, 1, 1));
    assert_eq!(center[24], Index::new_c(2, 2, 1));
    assert_eq!(center[25], Index::new_c(0, 0, 2));
    assert_eq!(center[28], Index::new_c(1, 1, 2));
    assert_eq!(center[29], Index::new_c(0, 0, 3));
    for c in &center {
        assert!(c.is_in_pyramid());
        assert!(!c.is_in_reserve());
    }
    let white = Board::all_indices(BoardSide::White);
    assert_eq!(white.len(), 15);
    assert_eq!(white[0], Ball::new_wr(0, 0).index);
    assert_eq!(white[1], Ball::new_wr(1, 0).index);
    assert_eq!(white[5], Ball::new_wr(0, 1).index);
    assert_eq!(white[14], Ball::new_wr(4, 2).index);
    let black = Board::all_indices(BoardSide::Black);
    assert_eq!(black[7], Ball::new_br(2, 1).index);
    assert!(black[7].is_in_reserve());
}

#[test]
fn snapshot_lists_reserves_then_pyramid() {
    let board = played(&[
        Move::new_wrc((0, 0), (2, 1, 0)),
        Move::new_brc((0, 0), (0, 0, 0)),
    ]);
    let shot = BoardFrontend::new(board);
    assert_eq!(shot.nmove, 2);
    assert_eq!(shot.turn, PlayerSide::White);
    assert_eq!(shot.takeDownRule, 0);
    assert_eq!(shot.winner, None);
    assert_eq!(shot.balls.len(), 30);
    assert_eq!(shot.balls[0], Ball::new_wr(1, 0));
    assert_eq!(shot.balls[13], Ball::new_wr(4, 2));
    assert_eq!(shot.balls[14], Ball::new_br(1, 0));
    assert_eq!(shot.balls[27], Ball::new_br(4, 2));
    assert_eq!(shot.balls[28], Ball::new_bc(0, 0, 0));
    assert_eq!(shot.balls[29], Ball::new_wc(2, 1, 0));
}

#[test]
fn keys_tell_boards_apart() {
    let start = Board::new();
    assert_eq!(start.key(), Board::default().key());
    let a = played(&[Move::new_wrc((0, 0), (0, 0, 0))]);
    let b = played(&[Move::new_wrc((0, 0), (1, 0, 0))]);
    let c = played(&[Move::new_wrc((1, 0), (0, 0, 0))]);
    assert_ne!(start.key(), a.key());
    assert_ne!(a.key(), b.key());
    assert_ne!(a.key(), c.key());
    assert_ne!(b.key(), c.key());
    assert_eq!(a.key(), played(&[Move::new_wrc((0, 0), (0, 0, 0))]).key());
    let mut won = before_the_apex();
    let open = won.key();
    assert!(won.make_move(Move::new_wrc((4, 2), (0, 0, 3))).is_ok());
    assert_ne!(open, won.key());
    assert_eq!(start.key(), ((1u128 << 30) - 1) << 60 << 19);
}

#[test]
fn the_other_player() {
    assert_eq!(PlayerSide::White.opponent(), PlayerSide::Black);
    assert_eq!(PlayerSide::Black.opponent(), PlayerSide::White);
    assert_eq!(!PlayerSide::White, PlayerSide::Black);
    assert_eq!(!PlayerSide::Black, PlayerSide::White);
    assert_eq!(
        Board::player_side_to_board_side(PlayerSide::White),
        BoardSide::White
    );
    assert_eq!(
        Board::player_side_to_board_side(PlayerSide::Black),
        BoardSide::Black
    );
}

#[test]
fn balls_and_squares() {
    let board = played(&[
        Move::new_wrc((0, 0), (0, 0, 0)),
        Move::new_brc((0, 0), (3, 3, 0)),
        Move::new_wrc((1, 0), (0, 1, 0)),
        Move::new_brc((1, 0), (3, 2, 0)),
        Move::new_wrc((2, 0), (1, 0, 0)),
        Move::new_brc((2, 0), (2, 3, 0)),
    ]);
    assert_eq!(
        board.get_ball(Index::new_c(0, 0, 0)),
        Some(Ball::new_wc(0, 0, 0))
    );
    assert_eq!(board.get_ball(Index::new_c(1, 1, 0)), None);
    assert_eq!(board.get_ball(Index::new_c(9, 9, 0)), None);
    assert!(board.ball_exists(Ball::new_bc(3, 3, 0)));
    assert!(!board.ball_exists(Ball::new_wc(3, 3, 0)));
    assert!(board.is_index_full(Index::new_c(3, 3, 0)));
    assert!(board.is_index_empty(Index::new_c(2, 2, 0)));
    assert!(!board.all_parent_exist(Index::new_c(0, 0, 1)));
    assert!(board.all_parent_exist(Index::new_c(2, 2, 0)));
    assert!(!board.child_exists(Index::new_c(0, 0, 0)));
    assert!(board.no_children_exist(Index::new_c(0, 0, 0)));
    assert!(!board.square_is_formed(Ball::new_wc(0, 0, 0)));
    assert!(board.same_color_balls(
        &vec![Index::new_c(0, 0, 0), Index::new_c(0, 1, 0)],
        PlayerSide::White
    ));
    assert!(!board.same_color_balls(
        &vec![Index::new_c(0, 0, 0), Index::new_c(3, 3, 0)],
        PlayerSide::White
    ));
    assert!(board.player_color_matches_ball_color(Move::new_wrc((3, 0), (1, 1, 0))));
    assert!(!board.player_color_matches_ball_color(Move::new_brc((3, 0), (1, 1, 0))));
    assert!(board.move_from_main_board_to_side_board(Move::new_wcr((0, 0, 0), (0, 0))));
    assert!(!board.move_from_main_board_to_side_board(Move::new_wrc((3, 0), (1, 1, 0))));
    assert_eq!(board.validate_move(Move::new_wrc((3, 0), (1, 1, 0))), Ok(()));
    assert_eq!(
        board.validate_move(Move::new_wrc((0, 0), (1, 1, 0))),
        Err(MoveError::NoSuchBall)
    );
}

#[test]
fn coordinates_moves_and_boards_in_print() {
    assert_eq!(Index::new_c(1, 2, 3).to_string(), "123");
    assert_eq!(Ball::new_wr(4, 2).index.to_string(), "\u{2198}420");
    assert_eq!(Ball::new_br(0, 1).index.to_string(), "\u{2199}010");
    assert_eq!(Index::new_c(-128, 127, -7).to_string(), "-128127-7");
    assert_eq!(Index::new_c(10, 99, 100).to_string(), "1099100");
    assert_eq!(BoardSide::Center.to_string(), "");
    assert_eq!(
        Move::new_wrc((1, 0), (2, 3, 0)).to_string(),
        "[\u{25ef} : \u{2198}100 => 230]"
    );
    assert_eq!(
        Move::new_bcr((0, 0, 1), (4, 2)).to_string(),
        "[\u{25cf} : 001 => \u{2199}420]"
    );
    let board = played(&[
        Move::new_wrc((0, 0), (1, 0, 0)),
        Move::new_brc((0, 0), (0, 3, 0)),
    ]);
    let d = "\u{22c5} ";
    let w = "\u{25ef} ";
    let b = "\u{25cf} ";
    let expected = format!(
        "\n[ {d}{w}{d}{d}]  [ {d}{d}{d}]  [ {d}{d}]  [ {d}]  \n[ {d}{d}{d}{d}]  [ {d}{d}{d}]  [ {d}{d}]  \n[ {d}{d}{d}{d}]  [ {d}{d}{d}]  \n[ {b}{d}{d}{d}]  \n"
    );
    assert_eq!(board.to_string(), expected);
}

#[test]
fn played_out_games_keep_the_board_sound() {
    let mut seed: u64 = 0x2545_f491_4f6c_dd1d;
    let mut finished = 0;
    let mut squares = 0;
    for _ in 0..150 {
        let mut board = Board::new();
        let mut seen = std::collections::HashMap::new();
        loop {
            let shot = BoardFrontend::new(board);
            assert_eq!(shot.balls.len(), 30);
            for side in [PlayerSide::White, PlayerSide::Black] {
                let owned = shot.balls.iter().filter(|b| b.player == side).count();
                assert_eq!(owned, 15);
            }
            for ball in &shot.balls {
                assert!(board.ball_exists(*ball));
                assert!(board.all_parent_exist(ball.index));
            }
            assert!(board.is_index_empty(Index::new_c(0, 0, 3)));
            assert!(board.get_take_back() <= 2);
            if let Some(earlier) = seen.insert(board.key(), board) {
                assert_eq!(earlier, board);
            }

            let moves = board.get_valid_moves();
            if board.is_game_over() || moves.is_empty() || board.get_move_number() > 250 {
                break;
            }
            for mv in &moves {
                let mut copy = board;
                assert_eq!(copy.make_move(*mv), Ok(()));
                assert_eq!(board.validate_move(*mv), Ok(()));
            }
            seed = seed
                .wrapping_mul(6364136223846793005)
                .wrapping_add(1442695040888963407);
            let mv = moves[(seed >> 33) as usize % moves.len()];
            let mover = board.get_turn();
            assert_eq!(board.make_move(mv), Ok(()));
            if board.get_take_back() == 2 {
                squares += 1;
                assert_eq!(board.get_turn(), mover);
            }
            if board.get_turn() == mover && board.get_take_back() == 0 && !board.is_game_over() {
                assert!(!board.move_is_possible(mover.opponent()));
            }
        }
        if board.is_game_over() {
            finished += 1;
            assert_eq!(board.get_winner(), Some(board.get_turn()));
        }
    }
    assert!(finished > 0);
    assert!(squares > 0);
}

#[test]
fn where_a_ball_may_go() {
    let start = Board::new();
    let open = start.get_ghost_balls(Ball::new_wr(0, 0));
    assert_eq!(open.len(), 16);
    assert_eq!(open[0], Ball::new_wc(0, 0, 0));
    assert_eq!(open[5], Ball::new_wc(1, 1, 0));
    assert_eq!(open[15], Ball::new_wc(3, 3, 0));
    assert_eq!(start.get_ghost_balls(Ball::new_wr(1, 0)), vec![]);
    assert_eq!(start.get_ghost_balls(Ball::new_br(0, 0)), vec![]);

    let board = played(&[
        Move::new_wrc((0, 0), (0, 0, 0)),
        Move::new_brc((0, 0), (1, 0, 0)),
        Move::new_wrc((1, 0), (0, 1, 0)),
        Move::new_brc((1, 0), (1, 1, 0)),
        Move::new_wrc((2, 0), (3, 3, 0)),
        Move::new_brc((2, 0), (2, 3, 0)),
    ]);
    assert_eq!(
        board.get_ghost_balls(Ball::new_wc(3, 3, 0)),
        vec![Ball::new_wc(0, 0, 1)]
    );
    assert_eq!(board.get_ghost_balls(Ball::new_wc(0, 0, 0)), vec![]);
    assert_eq!(board.get_ghost_balls(Ball::new_wr(3, 0)).len(), 11);

    let owed = played(&[
        Move::new_wrc((0, 0), (0, 0, 0)),
        Move::new_brc((0, 0), (3, 3, 0)),
        Move::new_wrc((1, 0), (0, 1, 0)),
        Move::new_brc((1, 0), (3, 2, 0)),
        Move::new_wrc((2, 0), (1, 0, 0)),
        Move::new_brc((2, 0), (2, 3, 0)),
        Move::new_wrc((3, 0), (1, 1, 0)),
    ]);
    assert_eq!(
        owed.get_ghost_balls(Ball::new_wc(1, 1, 0)),
        vec![Ball::new_wr(0, 0)]
    );
    assert_eq!(owed.get_ghost_balls(Ball::new_wr(4, 0)), vec![]);
    assert_eq!(owed.get_ghost_balls(Ball::new_bc(3, 3, 0)), vec![]);
}

#[test]
fn only_a_counted_move_needs_room_in_the_counter() {
    let start = Board::new();
    assert!(start.counts_a_move(Move::new_wrc((0, 0), (0, 0, 0))));
    assert!(!start.counts_a_move(Move::new_brc((0, 0), (0, 0, 0))));
    assert!(!start.counts_a_move(Move::new_wrc((0, 0), (0, 0, 1))));
    assert!(start.has_room_for(Move::new_wrc((0, 0), (0, 0, 0))));
    assert!(start.has_room_for(Move::new_brc((0, 0), (0, 0, 0))));

    let owed = played(&[
        Move::new_wrc((0, 0), (0, 0, 0)),
        Move::new_brc((0, 0), (3, 3, 0)),
        Move::new_wrc((1, 0), (0, 1, 0)),
        Move::new_brc((1, 0), (3, 2, 0)),
        Move::new_wrc((2, 0), (1, 0, 0)),
        Move::new_brc((2, 0), (2, 3, 0)),
        Move::new_wrc((3, 0), (1, 1, 0)),
    ]);
    assert!(!owed.counts_a_move(Move::new_wcr((1, 1, 0), (0, 0))));
    assert!(owed.has_room_for(Move::new_wcr((1, 1, 0), (0, 0))));

    let last = before_the_apex();
    assert!(!last.counts_a_move(Move::new_wrc((4, 2), (0, 0, 3))));
    assert!(last.has_room_for(Move::new_wrc((4, 2), (0, 0, 3))));
}
