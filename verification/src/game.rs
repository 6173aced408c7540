//! A game in progress: whose turn it is, the board, and the moves made so
//! far.

use crate::board::{on_board, opening, valid_size, Board, BoardError, Cell};
use crate::capture::{flips, placed};
use crate::coordinates::{Coordinates, CoordinatesError, Coords};
use crate::piece::Piece;
use crate::position::PositionError;
use std::ops::Not;
use vstd::prelude::*;
use vstd::string::StringExecFns;

verus! {

/// Why a move was not made, or a game not started.
#[derive(Debug, PartialEq, Eq)]
pub enum GameError {
    /// The text of the move names no cell.
    Coordinates(CoordinatesError),
    /// The board cannot have the size asked for, or has no such cell.
    Board(BoardError),
    /// The cell cannot be played on.
    Position(PositionError),
}

impl GameError {
    /// The text of this error's message: that of the error it holds.
    pub open spec fn message(self) -> Seq<char> {
        match self {
            GameError::Coordinates(e) => "Invalid coordinates format: '"@ + e.refused() + "'"@,
            GameError::Board(e) => e.message(),
            GameError::Position(e) => e.message(),
        }
    }

    /// The message of this error.
    pub fn to_string(&self) -> (message: String)
        ensures
            message@ == self.message(),
    {
        match self {
            GameError::Coordinates(e) => e.to_string(),
            GameError::Board(e) => e.to_string(),
            GameError::Position(e) => e.to_string(),
        }
    }
}

/// One move: a piece and the cell it was placed on.
#[derive(Debug, Clone, Copy, PartialEq, Eq, Structural)]
pub struct Move {
    pub piece: Piece,
    pub coords: Coords,
}

impl Move {
    pub fn new(piece: Piece, coords: Coords) -> (made: Self)
        ensures
            made.piece == piece,
            made.coords == coords,
    {
        Self { piece, coords }
    }

    /// The move in words: the colour's name, ` at `, and the cell's
    /// notation.
    pub open spec fn text(self) -> Seq<char> {
        self.piece.name() + " at "@ + self.coords.text()
    }

    /// The move in words, such as `Red at D:3`.
    pub fn to_string(&self) -> (text: String)
        ensures
            text@ == self.text(),
    {
        let mut text = self.piece.to_string();
        text.append(" at ");
        let cell = self.coords.to_string();
        text.append(cell.as_str());
        text
    }
}

/// What a move did: where the piece went, its colour, the cells it captured
/// and the winner, if the move decided the game.
#[derive(Debug)]
pub struct MoveResume {
    pub at: Coords,
    pub piece: Piece,
    pub flips: Vec<Coords>,
    pub winner: Option<Piece>,
}

impl MoveResume {
    pub fn new(at: Coords, piece: Piece, flips: Vec<Coords>, winner: Option<Piece>) -> (resume:
        Self)
        ensures
            resume.at == at,
            resume.piece == piece,
            resume.flips == flips,
            resume.winner == winner,
    {
        Self { at, piece, flips, winner }
    }
}

/// A game in progress: the colour to move, the board, and the moves made so
/// far, oldest first.
pub struct Game {
    pub turn: Piece,
    pub board: Board,
    pub moves: Vec<Move>,
}

impl Game {
    /// The moves made so far, oldest first.
    pub open spec fn history(&self) -> Seq<Move> {
        self.moves@
    }

    /// Whether the game is sound: its board is.
    pub open spec fn wf(&self) -> bool {
        self.board.wf()
    }

    /// A game at its start, on a board of the given size, with `turn` to
    /// move first. A size that a board cannot have is refused. The number of
    /// cells has to fit in a `usize`.
    pub fn starting_with(turn: Piece, board_size: usize) -> (r: Result<Self, GameError>)
        requires
            board_size * board_size <= usize::MAX,
        ensures
            match r {
                Ok(game) => {
                    &&& valid_size(board_size)
                    &&& game.wf()
                    &&& game.turn == turn
                    &&& game.board@ == opening(board_size as nat)
                    &&& game.history() == Seq::<Move>::empty()
                },
                Err(e) => !valid_size(board_size) && e == GameError::Board(
                    BoardError::InvalidBoardSize(board_size),
                ),
            },
    {
        match Board::new(board_size) {
            Ok(board) => Ok(Game { turn, board, moves: Vec::new() }),
            Err(e) => Err(GameError::Board(e)),
        }
    }

    /// A game at its start, on a board of the given size. Which colour moves
    /// first is drawn at random, so nothing is promised of it; all the rest is
    /// as `starting_with` has it. The number of cells has to fit in a
    /// `usize`.
    pub fn new(board_size: usize) -> (r: Result<Self, GameError>)
        requires
            board_size * board_size <= usize::MAX,
        ensures
            match r {
                Ok(game) => {
                    &&& valid_size(board_size)
                    &&& game.wf()
                    &&& game.board@ == opening(board_size as nat)
                    &&& game.history() == Seq::<Move>::empty()
                },
                Err(e) => !valid_size(board_size) && e == GameError::Board(
                    BoardError::InvalidBoardSize(board_size),
                ),
            },
    {
        Game::starting_with(Piece::rand(), board_size)
    }

    /// Makes the move that `coords` names for the colour whose turn it is:
    /// places a piece of that colour on the cell, turns over what it captures,
    /// records the move and hands the turn to the other colour. A text that
    /// names no cell, a cell that is not on the board and a cell that holds a
    /// piece are refused, in this order, and the game is then left as it
    /// was.
    pub fn place(&mut self, coords: &str) -> (r: Result<MoveResume, GameError>)
        requires
            old(self).wf(),
        ensures
            final(self).wf(),
            match r {
                Ok(resume) => {
                    &&& Coordinates::parsed(coords@) == Some(resume.at)
                    &&& on_board(old(self).board@, resume.at.row as int, resume.at.col as int)
                    &&& old(self).board@[resume.at.row as int][resume.at.col as int] == Cell::Empty
                    &&& resume.piece == old(self).turn
                    &&& resume.flips@ == flips(old(self).board@, resume.at, old(self).turn)
                    &&& resume.winner is None
                    &&& final(self).board@ == placed(old(self).board@, resume.at, old(self).turn)
                    &&& final(self).turn == old(self).turn.opposite()
                    &&& final(self).history() == old(self).history().push(
                        Move { piece: old(self).turn, coords: resume.at },
                    )
                },
                Err(e) => {
                    &&& final(self).board@ == old(self).board@
                    &&& final(self).turn == old(self).turn
                    &&& final(self).history() == old(self).history()
                    &&& match e {
                        GameError::Coordinates(inner) => Coordinates::parsed(coords@) is None
                            && inner.refused() == coords@,
                        GameError::Board(inner) => Coordinates::parsed(coords@) matches Some(at)
                            && !on_board(old(self).board@, at.row as int, at.col as int) && inner
                            == BoardError::InvalidPosition(at),
                        GameError::Position(inner) => Coordinates::parsed(coords@) matches Some(at)
                            && on_board(old(self).board@, at.row as int, at.col as int) && old(
                            self,
                        ).board@[at.row as int][at.col as int] != Cell::Empty && inner
                            == PositionError::PositionAlreadyOccupied,
                    }
                },
            },
    {
        let at = match Coords::from_str(coords) {
            Ok(at) => at,
            Err(e) => {
                return Err(GameError::Coordinates(e));
            },
        };
        let turn = self.turn;
        proof {
            self.board.grid_is_square();
        }
        let position = match self.board.get(at) {
            Ok(position) => position,
            Err(e) => {
                return Err(GameError::Board(e));
            },
        };
        let resume = match position.capture(turn) {
            Ok((_, turned_over)) => MoveResume::new(at, turn, turned_over, None),
            Err(e) => {
                return Err(GameError::Position(e));
            },
        };
        self.moves.push(Move::new(turn, at));
        self.turn = turn.not();
        Ok(resume)
    }
}

} // verus!
