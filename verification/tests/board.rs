use reversi::board::{Board, BoardError, Cell, Matrix, EMPTY_POSITION};
use reversi::coordinates::Coords;
use reversi::piece::Piece;

#[test]
fn test_matrix() {
    let mut m = Matrix::new(8);
    let c = m.read(Coords::new(7, 7));
    assert_eq!(c, Cell::Empty);
    m.write(Coords::new(7, 7), Cell::from_char('B').unwrap());
    assert_eq!(m.read(Coords::new(7, 7)), Cell::Occupied(Piece::Blue));
    println!("{:?}", m);
}

#[test]
fn test_valid_board_size() {
    assert!(Board::new(16).is_ok());
    assert!(Board::new(8).is_ok());
    assert!(Board::new(6).is_ok());
    assert!(Board::new(4).is_err());
    assert!(Board::new(13).is_err());
}

#[test]
fn test_board_initial_setup() {
    let moves = vec![
        ("E:3", Piece::Blue),
        ("D:3", Piece::Red),
        ("C:3", Piece::Blue),
        ("D:2", Piece::Red),
    ];
    let mut board = Board::new(8).unwrap();

    for m in moves {
        board
            .get(Coords::from_str(m.0).unwrap())
            .unwrap()
            .place(m.1)
            .unwrap();
    }
    assert_eq!(
        board.to_string(),
        concat_rows(&[
            "        ", "        ", "  B     ", " RRRR   ", "  BBB   ", "        ", "        ",
            "        ",
        ])
    );
}

fn concat_rows(rows: &[&str]) -> String {
    let mut text = String::new();
    for row in rows {
        text.push_str(row);
        text.push('\n');
    }
    text
}

#[test]
fn board_size_validation() {
    for n in [0usize, 3, 4, 5, 13] {
        assert_eq!(Board::new(n).unwrap_err(), BoardError::InvalidBoardSize(n));
    }
    for n in [1usize, 2, 7, 101] {
        assert_eq!(Board::new(n).unwrap_err(), BoardError::InvalidBoardSize(n));
    }
    for n in [6usize, 8, 16] {
        assert_eq!(Board::new(n).unwrap().size(), n);
    }
}

#[test]
fn board_initial_layout() {
    let board = Board::new(8).unwrap();
    for row in 0..8 {
        for col in 0..8 {
            let expected = match (row, col) {
                (3, 3) | (4, 4) => Cell::Occupied(Piece::Blue),
                (3, 4) | (4, 3) => Cell::Occupied(Piece::Red),
                _ => Cell::Empty,
            };
            assert_eq!(board.cell(Coords::new(row, col)).unwrap(), expected);
        }
    }
}

#[test]
fn board_initial_layout_of_other_sizes() {
    for size in [6usize, 10, 16] {
        let board = Board::new(size).unwrap();
        let half = size / 2;
        let mut pieces = 0;
        for row in 0..size {
            for col in 0..size {
                let cell = board.cell(Coords::new(row, col)).unwrap();
                if cell != Cell::Empty {
                    pieces += 1;
                }
            }
        }
        assert_eq!(pieces, 4);
        assert_eq!(
            board.cell(Coords::new(half, half)).unwrap(),
            Cell::Occupied(Piece::Blue)
        );
        assert_eq!(
            board.cell(Coords::new(half - 1, half - 1)).unwrap(),
            Cell::Occupied(Piece::Blue)
        );
        assert_eq!(
            board.cell(Coords::new(half - 1, half)).unwrap(),
            Cell::Occupied(Piece::Red)
        );
        assert_eq!(
            board.cell(Coords::new(half, half - 1)).unwrap(),
            Cell::Occupied(Piece::Red)
        );
    }
}

#[test]
fn board_get_refuses_cells_off_the_board() {
    let mut board = Board::new(8).unwrap();
    assert!(board.get(Coords::new(7, 7)).is_ok());
    assert!(board.get(Coords::new(0, 0)).is_ok());
    for c in [
        Coords::new(8, 0),
        Coords::new(0, 8),
        Coords::new(8, 8),
        Coords::new(usize::MAX, 3),
    ] {
        match board.get(c) {
            Err(e) => assert_eq!(e, BoardError::InvalidPosition(c)),
            Ok(_) => panic!("a cell off the board was handed out"),
        }
        assert_eq!(board.cell(c).unwrap_err(), BoardError::InvalidPosition(c));
    }
}

#[test]
fn board_get_reads_the_cell() {
    let mut board = Board::new(8).unwrap();
    assert_eq!(
        board.get(Coords::new(3, 3)).unwrap().piece(),
        Some(Piece::Blue)
    );
    assert_eq!(
        board.get(Coords::new(3, 4)).unwrap().piece(),
        Some(Piece::Red)
    );
    assert_eq!(board.get(Coords::new(0, 0)).unwrap().piece(), None);
    assert!(board.get(Coords::new(4, 4)).unwrap().occupied());
    assert!(!board.get(Coords::new(4, 5)).unwrap().occupied());
}

#[test]
fn board_serialized() {
    let board = Board::new(6).unwrap();
    assert_eq!(
        board.to_string(),
        "      \n      \n  BR  \n  RB  \n      \n      \n"
    );
    assert_eq!(EMPTY_POSITION, ' ');
}

#[test]
fn board_error_messages() {
    assert_eq!(
        BoardError::InvalidBoardSize(13).to_string(),
        "Invalid board size: 13. The size must be a number greater than 4 and even."
    );
    assert_eq!(
        BoardError::InvalidBoardSize(0).to_string(),
        "Invalid board size: 0. The size must be a number greater than 4 and even."
    );
    assert_eq!(
        BoardError::InvalidPosition(Coords::new(1, 50)).to_string(),
        "Invalid position: B:51"
    );
}

#[test]
fn matrix_write_changes_one_cell_only() {
    let mut m = Matrix::new(6);
    assert_eq!(m.size(), 6);
    m.write(Coords::new(2, 5), Cell::Occupied(Piece::Red));
    m.write(Coords::new(5, 2), Cell::Occupied(Piece::Blue));
    for row in 0..6 {
        for col in 0..6 {
            let expected = match (row, col) {
                (2, 5) => Cell::Occupied(Piece::Red),
                (5, 2) => Cell::Occupied(Piece::Blue),
                _ => Cell::Empty,
            };
            assert_eq!(m.read(Coords::new(row, col)), expected);
        }
    }
    m.write(Coords::new(2, 5), Cell::Empty);
    assert_eq!(m.read(Coords::new(2, 5)), Cell::Empty);
    assert_eq!(m.read(Coords::new(5, 2)), Cell::Occupied(Piece::Blue));
}
