use reversi::board::{BoardError, Cell};
use reversi::coordinates::{CoordinatesError, Coords};
use reversi::game::{Game, GameError, Move, MoveResume};
use reversi::piece::Piece;
use reversi::position::PositionError;

#[test]
fn game_x() {
    let mut game = Game::new(8).unwrap();
    let _ = game.place("A:1");
    let _ = game.place("A:3");
    game.place("D:8").unwrap();
    game.place("B:4").unwrap();
    game.place("C:4").unwrap();
    game.place("F:4").unwrap();

    println!("{}", game.board.to_string());
    assert_eq!(game.moves.len(), 6);
}

#[test]
fn game_starts_on_the_opening_board() {
    let game = Game::new(8).unwrap();
    assert!(game.moves.is_empty());
    assert_eq!(
        game.board.to_string(),
        "        \n        \n        \n   BR   \n   RB   \n        \n        \n        \n"
    );
    let game = Game::starting_with(Piece::Red, 6).unwrap();
    assert_eq!(game.turn, Piece::Red);
    assert_eq!(game.board.size(), 6);
}

#[test]
fn game_refuses_an_invalid_board_size() {
    for n in [0usize, 3, 4, 5, 13] {
        match Game::new(n) {
            Err(e) => assert_eq!(e, GameError::Board(BoardError::InvalidBoardSize(n))),
            Ok(_) => panic!("a game was started on a board of size {}", n),
        }
    }
}

#[test]
fn game_move_captures_and_alternates() {
    let mut game = Game::starting_with(Piece::Red, 8).unwrap();
    let resume = game.place("D:3").unwrap();
    assert_eq!(resume.at, Coords::new(3, 2));
    assert_eq!(resume.piece, Piece::Red);
    assert_eq!(resume.flips, vec![Coords::new(3, 3)]);
    assert_eq!(resume.winner, None);
    assert_eq!(game.turn, Piece::Blue);
    assert_eq!(game.moves, vec![Move::new(Piece::Red, Coords::new(3, 2))]);
    assert_eq!(
        game.board.to_string(),
        "        \n        \n        \n  RRR   \n   RB   \n        \n        \n        \n"
    );
    let resume = game.place("C:3").unwrap();
    assert_eq!(resume.piece, Piece::Blue);
    assert_eq!(resume.flips, vec![Coords::new(3, 3)]);
    assert_eq!(game.turn, Piece::Red);
    assert_eq!(
        game.board.to_string(),
        "        \n        \n  B     \n  RBR   \n   RB   \n        \n        \n        \n"
    );
    assert_eq!(
        game.moves,
        vec![
            Move::new(Piece::Red, Coords::new(3, 2)),
            Move::new(Piece::Blue, Coords::new(2, 2)),
        ]
    );
}

#[test]
fn game_refused_moves_leave_the_game_as_it_was() {
    let mut game = Game::starting_with(Piece::Blue, 8).unwrap();
    let before = game.board.to_string();
    assert_eq!(
        game.place("D4").unwrap_err(),
        GameError::Coordinates(CoordinatesError::ParseError("D4".to_string()))
    );
    assert_eq!(
        game.place("I:1").unwrap_err(),
        GameError::Board(BoardError::InvalidPosition(Coords::new(8, 0)))
    );
    assert_eq!(
        game.place("A:9").unwrap_err(),
        GameError::Board(BoardError::InvalidPosition(Coords::new(0, 8)))
    );
    assert_eq!(
        game.place("D:4").unwrap_err(),
        GameError::Position(PositionError::PositionAlreadyOccupied)
    );
    assert_eq!(game.turn, Piece::Blue);
    assert!(game.moves.is_empty());
    assert_eq!(game.board.to_string(), before);
}

#[test]
fn game_accepts_a_move_that_captures_nothing() {
    let mut game = Game::starting_with(Piece::Blue, 8).unwrap();
    let resume = game.place("A:1").unwrap();
    assert!(resume.flips.is_empty());
    assert_eq!(game.turn, Piece::Red);
    assert_eq!(
        game.board.cell(Coords::new(0, 0)).unwrap(),
        Cell::Occupied(Piece::Blue)
    );
}

#[test]
fn game_error_messages() {
    assert_eq!(
        GameError::Coordinates(CoordinatesError::ParseError("x".to_string())).to_string(),
        "Invalid coordinates format: 'x'"
    );
    assert_eq!(
        GameError::Board(BoardError::InvalidPosition(Coords::new(8, 0))).to_string(),
        "Invalid position: I:1"
    );
    assert_eq!(
        GameError::Position(PositionError::PositionAlreadyOccupied).to_string(),
        "position could not be flipped"
    );
}

#[test]
fn move_in_words() {
    assert_eq!(
        Move::new(Piece::Red, Coords::new(3, 2)).to_string(),
        "Red at D:3"
    );
    assert_eq!(
        Move::new(Piece::Blue, Coords::new(26, 25)).to_string(),
        "Blue at AA:26"
    );
}

#[test]
fn move_resume_holds_what_it_was_given() {
    let resume = MoveResume::new(
        Coords::new(1, 2),
        Piece::Blue,
        vec![Coords::new(1, 3)],
        Some(Piece::Red),
    );
    assert_eq!(resume.at, Coords::new(1, 2));
    assert_eq!(resume.piece, Piece::Blue);
    assert_eq!(resume.flips, vec![Coords::new(1, 3)]);
    assert_eq!(resume.winner, Some(Piece::Red));
}
