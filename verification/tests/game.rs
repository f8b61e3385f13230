use thud::{Board, Coord, Direction, EndState, GameState, Piece, Player, Thud, ThudError};

fn sq(x: usize, y: usize) -> Coord {
    Coord::zero_based(x, y).unwrap()
}

#[test]
fn new_game_opens_with_the_dwarves() {
    let game = Thud::new();
    assert_eq!(game.turn(), Some(Player::Dwarf));
    assert_eq!(game.state(), GameState::Nominal(Player::Dwarf));
    assert_eq!(game.score(), (32, 32));
    assert_eq!(game.board().full_raw(), Board::fresh().full_raw());
}

#[test]
fn turn_sequencing() {
    let mut game = Thud::new();
    assert_eq!(game.move_piece(sq(6, 0), sq(6, 5)), Ok(()));
    assert_eq!(game.turn(), Some(Player::Troll));
    assert_eq!(game.state(), GameState::Nominal(Player::Troll));

    assert_eq!(game.attack(sq(7, 6), sq(7, 5)), Ok(()));
    assert_eq!(game.state(), GameState::PostTrollMove(true));
    assert_eq!(game.turn(), Some(Player::Troll));

    let before = game.board().full_raw();
    assert_eq!(game.move_piece(sq(8, 6), sq(9, 6)), Err(ThudError::BadAction));
    assert_eq!(game.attack(sq(8, 6), sq(9, 6)), Err(ThudError::BadAction));
    assert_eq!(game.troll_cap(sq(7, 5), vec![]), Err(ThudError::IllegalMove));
    assert_eq!(game.troll_cap(sq(7, 5), vec![Direction::Right]), Err(ThudError::IllegalMove));
    assert_eq!(game.state(), GameState::PostTrollMove(true));
    assert_eq!(game.board().full_raw(), before);

    assert_eq!(game.troll_cap(sq(7, 5), vec![Direction::Left]), Ok(()));
    assert_eq!(game.turn(), Some(Player::Dwarf));
    assert_eq!(game.board().get(sq(6, 5)), Piece::Empty);
    assert_eq!(game.board().get(sq(7, 5)), Piece::Troll);
    assert_eq!(game.score(), (31, 32));
}

#[test]
fn capture_is_optional_after_a_plain_move() {
    let mut game = Thud::new();
    assert_eq!(game.move_piece(sq(6, 0), sq(6, 4)), Ok(()));
    assert_eq!(game.move_piece(sq(6, 6), sq(5, 5)), Ok(()));
    assert_eq!(game.state(), GameState::PostTrollMove(false));
    assert_eq!(game.troll_cap(sq(6, 6), vec![]), Err(ThudError::IllegalMove));
    assert_eq!(game.state(), GameState::PostTrollMove(false));
    assert_eq!(game.troll_cap(sq(5, 5), vec![]), Ok(()));
    assert_eq!(game.turn(), Some(Player::Dwarf));
    assert_eq!(game.score(), (32, 32));
}

#[test]
fn capture_after_a_plain_move_takes_dwarves() {
    let mut game = Thud::new();
    assert_eq!(game.move_piece(sq(6, 0), sq(6, 4)), Ok(()));
    assert_eq!(game.move_piece(sq(6, 6), sq(5, 5)), Ok(()));
    assert_eq!(game.troll_cap(sq(5, 5), vec![Direction::DownRight, Direction::Up]), Ok(()));
    assert_eq!(game.board().get(sq(6, 4)), Piece::Empty);
    assert_eq!(game.score(), (31, 32));
    assert_eq!(game.state(), GameState::Nominal(Player::Dwarf));
}

#[test]
fn actions_out_of_phase_are_bad_actions() {
    let mut game = Thud::new();
    assert_eq!(game.troll_cap(sq(6, 6), vec![Direction::Up]), Err(ThudError::BadAction));
    assert_eq!(game.state(), GameState::Nominal(Player::Dwarf));
    assert_eq!(game.move_piece(sq(6, 0), sq(6, 5)), Ok(()));
    assert_eq!(game.troll_cap(sq(6, 6), vec![Direction::Down]), Err(ThudError::BadAction));
    assert_eq!(game.state(), GameState::Nominal(Player::Troll));
}

#[test]
fn failing_actions_change_nothing() {
    let mut game = Thud::new();
    let before = game.board().full_raw();
    assert_eq!(game.move_piece(sq(8, 0), sq(8, 12)), Err(ThudError::Obstacle(8, 6)));
    assert_eq!(game.move_piece(sq(6, 6), sq(5, 5)), Err(ThudError::IllegalMove));
    assert_eq!(game.attack(sq(6, 0), sq(6, 6)), Err(ThudError::LineTooShort(6, 1)));
    assert_eq!(game.attack(sq(6, 0), sq(6, 5)), Err(ThudError::IllegalMove));
    assert_eq!(game.state(), GameState::Nominal(Player::Dwarf));
    assert_eq!(game.board().full_raw(), before);
}

#[test]
fn a_hurl_hands_the_turn_to_the_trolls() {
    let mut board = Board::fresh();
    board.place(sq(6, 5), Piece::Dwarf);
    let mut game = Thud::with_state(board, GameState::Nominal(Player::Dwarf));
    assert_eq!(game.attack(sq(6, 5), sq(6, 6)), Ok(()));
    assert_eq!(game.state(), GameState::Nominal(Player::Troll));
    assert_eq!(game.board().get(sq(6, 6)), Piece::Dwarf);
    assert_eq!(game.board().get(sq(6, 5)), Piece::Empty);
    assert_eq!(game.score(), (33, 28));
}

#[test]
fn win_detection() {
    let mut board = Board::default();
    board.place(sq(5, 0), Piece::Dwarf);
    for (x, y) in [(6, 0), (4, 1), (5, 1), (6, 1)] {
        board.place(sq(x, y), Piece::Thudstone);
    }
    board.place(sq(10, 10), Piece::Troll);
    let mut game = Thud::with_state(board, GameState::Nominal(Player::Dwarf));
    assert_eq!(game.turn(), Some(Player::Dwarf));
    assert_eq!(game.winner(), Some(EndState::Won(Player::Troll)));
    assert_eq!(game.state(), GameState::GameEnded(EndState::Won(Player::Troll)));
    assert_eq!(game.turn(), None);
    assert_eq!(game.winner(), Some(EndState::Won(Player::Troll)));
    assert_eq!(game.move_piece(sq(10, 10), sq(10, 11)), Err(ThudError::BadAction));
    assert_eq!(game.attack(sq(10, 10), sq(10, 11)), Err(ThudError::BadAction));
    assert_eq!(game.troll_cap(sq(10, 10), vec![]), Err(ThudError::BadAction));
    assert_eq!(game.score(), (1, 4));
}

#[test]
fn the_first_verdict_is_kept() {
    // the board would say that the game is open, the phase says that it is over
    let mut game = Thud::with_state(Board::fresh(), GameState::GameEnded(EndState::Draw));
    assert_eq!(game.winner(), Some(EndState::Draw));
    assert_eq!(game.winner(), Some(EndState::Draw));
    assert_eq!(game.turn(), None);
}

#[test]
fn winner_leaves_an_open_game_alone() {
    let mut game = Thud::new();
    assert_eq!(game.winner(), None);
    assert_eq!(game.state(), GameState::Nominal(Player::Dwarf));
    let mut later = Thud::with_state(Board::fresh(), GameState::PostTrollMove(true));
    assert_eq!(later.winner(), None);
    assert_eq!(later.state(), GameState::PostTrollMove(true));
}
