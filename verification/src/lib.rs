//! The rule engine of a two-colour capture game on a square board: algebraic
//! cell addresses, stepping along the eight compass rays, and the resolution
//! of captures when a piece is placed.
//!
//! Every function states what it returns over mathematical models (integers,
//! sequences, the board as rows of cells), and Verus proves the body against
//! that statement.

use std::ops::Deref;
use std::ops::Not;
use vstd::prelude::*;
use vstd::std_specs::ops::NotSpecImpl;

pub mod board;
pub mod capture;
pub mod coordinates;
pub mod game;
pub mod notation;
pub mod piece;
pub mod position;
pub mod text;
pub mod walker;

verus! {

/// A transparent holder of one value.
pub struct Wrap<T>(pub T);

impl<T> Deref for Wrap<T> {
    type Target = T;

    fn deref(&self) -> (inner: &T)
        ensures
            *inner == self.0,
    {
        &self.0
    }
}

pub type Dir = Direction;

/// One of the eight compass directions on the board. Rows grow downwards,
/// columns grow to the right.
#[derive(Debug, PartialEq, Clone, Copy, Eq, Structural)]
pub enum Direction {
    Up,
    UpRight,
    Right,
    DownRight,
    Down,
    DownLeft,
    Left,
    UpLeft,
}

impl Direction {
    /// The direction that points the other way.
    pub open spec fn inverse(self) -> Direction {
        match self {
            Direction::Up => Direction::Down,
            Direction::UpRight => Direction::DownLeft,
            Direction::Right => Direction::Left,
            Direction::DownRight => Direction::UpLeft,
            Direction::Down => Direction::Up,
            Direction::DownLeft => Direction::UpRight,
            Direction::Left => Direction::Right,
            Direction::UpLeft => Direction::DownRight,
        }
    }

    /// How far `k` steps in this direction move a cell: the change of its row
    /// and the change of its column.
    pub open spec fn delta(self, k: int) -> (int, int) {
        match self {
            Direction::Up => (-k, 0),
            Direction::UpRight => (-k, k),
            Direction::Right => (0, k),
            Direction::DownRight => (k, k),
            Direction::Down => (k, 0),
            Direction::DownLeft => (k, -k),
            Direction::Left => (0, -k),
            Direction::UpLeft => (-k, -k),
        }
    }

    /// The eight directions, clockwise from `Up`.
    pub open spec fn every() -> Seq<Direction> {
        seq![
            Direction::Up,
            Direction::UpRight,
            Direction::Right,
            Direction::DownRight,
            Direction::Down,
            Direction::DownLeft,
            Direction::Left,
            Direction::UpLeft,
        ]
    }

    /// The place of this direction in `every()`.
    pub open spec fn ordinal(self) -> int {
        match self {
            Direction::Up => 0,
            Direction::UpRight => 1,
            Direction::Right => 2,
            Direction::DownRight => 3,
            Direction::Down => 4,
            Direction::DownLeft => 5,
            Direction::Left => 6,
            Direction::UpLeft => 7,
        }
    }

    /// All eight directions, clockwise from `Up`.
    pub fn all() -> (dirs: [Direction; 8])
        ensures
            dirs@ == Direction::every(),
    {
        let dirs = [
            Direction::Up,
            Direction::UpRight,
            Direction::Right,
            Direction::DownRight,
            Direction::Down,
            Direction::DownLeft,
            Direction::Left,
            Direction::UpLeft,
        ];
        assert(dirs@ =~= Direction::every());
        dirs
    }

    /// Every direction stands in `every()`, at its ordinal, and nowhere else.
    pub proof fn every_is_complete(d: Direction)
        ensures
            Direction::every().len() == 8,
            0 <= d.ordinal() < 8,
            Direction::every()[d.ordinal()] == d,
            forall|i: int| 0 <= i < 8 && Direction::every()[i] == d ==> i == d.ordinal(),
    {
    }

    /// Taking the inverse twice gives the direction back.
    pub proof fn inverse_is_involutive(d: Direction)
        ensures
            d.inverse().inverse() == d,
            d.inverse() != d,
    {
    }

    /// The inverse direction moves a cell back by as much as the direction
    /// moved it.
    pub proof fn inverse_negates_delta(d: Direction, k: int)
        ensures
            d.inverse().delta(k).0 == -d.delta(k).0,
            d.inverse().delta(k).1 == -d.delta(k).1,
    {
    }
}

impl Not for Direction {
    type Output = Direction;

    fn not(self) -> (inverse: Direction) {
        match self {
            Direction::Up => Direction::Down,
            Direction::UpRight => Direction::DownLeft,
            Direction::Right => Direction::Left,
            Direction::DownRight => Direction::UpLeft,
            Direction::Down => Direction::Up,
            Direction::DownLeft => Direction::UpRight,
            Direction::Left => Direction::Right,
            Direction::UpLeft => Direction::DownRight,
        }
    }
}

impl NotSpecImpl for Direction {
    open spec fn obeys_not_spec() -> bool {
        true
    }

    open spec fn not_req(self) -> bool {
        true
    }

    open spec fn not_spec(self) -> Direction {
        self.inverse()
    }
}

} // verus!
