//! Cells by row and column, and stepping from one cell towards another.

use crate::notation::{
    all_letters, colon_follows_the_letters, colon_is_unique, denoted, is_notation,
    is_row_letter, letters_value, letters_value_of_row_letters, notation,
    notation_denotes_its_cell, row_letters, row_letters_are_letters,
};
use crate::text::{
    chars_of, leading_letters, letters_value_grows, only_digits_from, push_decimal,
    push_row_letters, read_digits, read_letters,
};
use crate::walker::{Walkable, Walker, WalkerIterator};
use crate::Dir;
use vstd::prelude::*;
use vstd::std_specs::convert::FromSpecImpl;
use vstd::string::StringExecFns;

verus! {

pub type Coords = Coordinates;

/// Why a text was not read as a cell or as a row.
#[derive(Debug, PartialEq, Eq)]
pub enum CoordinatesError {
    /// The text, as it was given.
    ParseError(String),
}

impl CoordinatesError {
    /// The text that was refused.
    pub open spec fn refused(self) -> Seq<char> {
        match self {
            CoordinatesError::ParseError(text) => text@,
        }
    }

    /// The message of this error: the words `Invalid coordinates format: `
    /// and the refused text between single quotes.
    pub fn to_string(&self) -> (message: String)
        ensures
            message@ == "Invalid coordinates format: '"@ + self.refused() + "'"@,
    {
        match self {
            CoordinatesError::ParseError(text) => {
                let mut message = "Invalid coordinates format: '".to_owned();
                message.append(text.as_str());
                message.append("'");
                message
            },
        }
    }
}

/// The place of a cell: its row and its column, both counted from zero. Rows
/// grow downwards and columns grow to the right.
#[derive(Debug, Clone, Copy, PartialEq, Eq, Structural)]
pub struct Coordinates {
    pub row: usize,
    pub col: usize,
}

impl Coordinates {
    pub fn new(row: usize, col: usize) -> (coords: Self)
        ensures
            coords.row == row,
            coords.col == col,
    {
        Self { row, col }
    }

    /// The cell in the given row and column, where both can be held: neither
    /// is negative, and neither is beyond the largest `usize`.
    pub open spec fn at(row: int, col: int) -> Option<Coordinates> {
        if 0 <= row <= usize::MAX && 0 <= col <= usize::MAX {
            Some(Coordinates { row: row as usize, col: col as usize })
        } else {
            None
        }
    }

    /// The notation of this cell: its row in letters, a colon, and its
    /// column as a decimal number counted from one.
    pub open spec fn text(self) -> Seq<char> {
        notation(self.row as nat, self.col as nat)
    }

    /// The cell that a text denotes, where it denotes one that can be held.
    pub open spec fn parsed(s: Seq<char>) -> Option<Coordinates> {
        match denoted(s) {
            Some((row, col)) => Coordinates::at(row as int, col as int),
            None => None,
        }
    }

    /// The notation of this cell, such as `A:1` for the first cell of the
    /// first row.
    pub fn to_string(&self) -> (text: String)
        ensures
            text@ == self.text(),
    {
        let mut text = String::new();
        push_row_letters(&mut text, self.row);
        text.push(':');
        push_decimal(&mut text, self.col as u128 + 1);
        proof {
            assert(text@ =~= self.text());
        }
        text
    }

    /// Reads a cell from its notation: one or more ASCII letters of either
    /// case, a colon, and one or more decimal digits that spell a number of
    /// at least one. Everything else is refused, and so is a cell whose row or
    /// column is beyond the largest `usize`; the error holds the text as it
    /// was given.
    pub fn from_str(s: &str) -> (r: Result<Coordinates, CoordinatesError>)
        ensures
            match r {
                Ok(coords) => Coordinates::parsed(s@) == Some(coords),
                Err(e) => Coordinates::parsed(s@) is None && e.refused() == s@,
            },
    {
        let chars = chars_of(s);
        let k = leading_letters(&chars);
        if k == 0 || k >= chars.len() || chars[k] != ':' || k + 1 >= chars.len()
            || !only_digits_from(&chars, k + 1) {
            proof {
                if is_notation(s@) {
                    colon_follows_the_letters(s@, k as int);
                }
            }
            return Err(CoordinatesError::ParseError(s.to_owned()));
        }
        proof {
            colon_is_unique(s@, k as int);
            letters_value_grows(s@.take(k as int), 0);
        }
        let limit: u128 = usize::MAX as u128 + 1;
        let row = read_letters(&chars, k, limit);
        let number = read_digits(&chars, k + 1, limit);
        match (row, number) {
            (Some(row), Some(number)) => {
                if number == 0 {
                    Err(CoordinatesError::ParseError(s.to_owned()))
                } else {
                    Ok(Coordinates { row: (row - 1) as usize, col: (number - 1) as usize })
                }
            },
            _ => Err(CoordinatesError::ParseError(s.to_owned())),
        }
    }

    /// The cell that lies `length` steps away in direction `dir`, where there
    /// is one.
    pub open spec fn moved(self, dir: Dir, length: int) -> Option<Coordinates> {
        Coordinates::at(self.row + dir.delta(length).0, self.col + dir.delta(length).1)
    }
}

impl std::str::FromStr for Coordinates {
    type Err = CoordinatesError;

    fn from_str(s: &str) -> (r: Result<Self, CoordinatesError>)
        ensures
            match r {
                Ok(coords) => Coordinates::parsed(s@) == Some(coords),
                Err(e) => Coordinates::parsed(s@) is None && e.refused() == s@,
            },
    {
        Coordinates::from_str(s)
    }
}

impl Walkable for Coordinates {
    type WItem = Coordinates;

    type W = CoordinatesWalker;

    open spec fn walker_of(&self, dir: Dir) -> CoordinatesWalker {
        CoordinatesWalker(*self, dir)
    }

    fn walker(&self, dir: Dir) -> (w: CoordinatesWalker) {
        CoordinatesWalker(*self, dir)
    }
}

/// A cell and a direction to leave it in.
#[derive(Debug, Clone, Copy)]
pub struct CoordinatesWalker(pub Coordinates, pub Dir);

impl Walker for CoordinatesWalker {
    type WItem = Coordinates;

    /// The cell `length` steps away: a step up takes one from the row, a step
    /// down adds one, a step left takes one from the column, a step right
    /// adds one, and a diagonal step does both. There is no such cell where
    /// its row or column would be negative, and none that a `usize` cannot
    /// hold.
    open spec fn step(&self, length: usize) -> Option<Coordinates> {
        self.0.moved(self.1, length as int)
    }

    fn walk(&self, length: usize) -> (item: Option<Coordinates>) {
        let origin = self.0;
        let room_down = length <= usize::MAX - origin.row;
        let room_right = length <= usize::MAX - origin.col;
        match self.1 {
            Dir::Up => {
                if origin.row >= length {
                    Some(Coordinates::new(origin.row - length, origin.col))
                } else {
                    None
                }
            },
            Dir::UpRight => {
                if origin.row >= length && room_right {
                    Some(Coordinates::new(origin.row - length, origin.col + length))
                } else {
                    None
                }
            },
            Dir::Right => {
                if room_right {
                    Some(Coordinates::new(origin.row, origin.col + length))
                } else {
                    None
                }
            },
            Dir::DownRight => {
                if room_down && room_right {
                    Some(Coordinates::new(origin.row + length, origin.col + length))
                } else {
                    None
                }
            },
            Dir::Down => {
                if room_down {
                    Some(Coordinates::new(origin.row + length, origin.col))
                } else {
                    None
                }
            },
            Dir::DownLeft => {
                if origin.col >= length && room_down {
                    Some(Coordinates::new(origin.row + length, origin.col - length))
                } else {
                    None
                }
            },
            Dir::Left => {
                if origin.col >= length {
                    Some(Coordinates::new(origin.row, origin.col - length))
                } else {
                    None
                }
            },
            Dir::UpLeft => {
                if origin.col >= length && origin.row >= length {
                    Some(Coordinates::new(origin.row - length, origin.col - length))
                } else {
                    None
                }
            },
        }
    }
}

impl CoordinatesWalker {
    /// The cells one step, two steps, three steps... away, as a sequence to
    /// take from.
    pub fn into_iter(self) -> (iter: WalkerIterator<Coordinates>)
        ensures
            iter.origin() == self.0,
            iter.direction() == self.1,
            iter.pending() == Some(1usize),
    {
        WalkerIterator::new(self.0, self.1)
    }
}

/// The number of a row, counted from zero. It is written in letters: `A` for
/// row 0, `Z` for row 25, `AA` for row 26.
#[derive(Debug, Clone, PartialEq, Eq, Copy, Structural)]
pub struct RowNumber(pub usize);

impl RowNumber {
    pub fn new(number: usize) -> (row: Self)
        ensures
            row.0 == number,
    {
        RowNumber(number)
    }

    /// The letters of this row.
    pub open spec fn text(self) -> Seq<char> {
        row_letters(self.0 as nat)
    }

    /// The row that a text spells: the text is one or more ASCII letters of
    /// either case, and the row can be held.
    pub open spec fn parsed(s: Seq<char>) -> Option<RowNumber> {
        if s.len() > 0 && all_letters(s) && letters_value(s) - 1 <= usize::MAX {
            Some(RowNumber((letters_value(s) - 1) as usize))
        } else {
            None
        }
    }

    /// The letters of this row, in upper case.
    pub fn to_string(&self) -> (text: String)
        ensures
            text@ == self.text(),
    {
        let mut text = String::new();
        push_row_letters(&mut text, self.0);
        proof {
            assert(text@ =~= self.text());
        }
        text
    }

    /// Reads a row from its letters. A text that is empty or holds anything
    /// but ASCII letters is refused, and so is a row beyond the largest
    /// `usize`; the error holds the text as it was given.
    pub fn from_str(s: &str) -> (r: Result<RowNumber, CoordinatesError>)
        ensures
            match r {
                Ok(row) => RowNumber::parsed(s@) == Some(row),
                Err(e) => RowNumber::parsed(s@) is None && e.refused() == s@,
            },
    {
        let chars = chars_of(s);
        let k = leading_letters(&chars);
        if k == 0 || k < chars.len() {
            proof {
                if k < chars.len() && all_letters(s@) {
                    assert(is_row_letter(s@[k as int]));
                }
            }
            return Err(CoordinatesError::ParseError(s.to_owned()));
        }
        proof {
            assert(s@.take(k as int) =~= s@);
            letters_value_grows(s@, 0);
        }
        match read_letters(&chars, k, usize::MAX as u128 + 1) {
            Some(value) => Ok(RowNumber((value - 1) as usize)),
            None => Err(CoordinatesError::ParseError(s.to_owned())),
        }
    }
}

impl std::str::FromStr for RowNumber {
    type Err = CoordinatesError;

    fn from_str(s: &str) -> (r: Result<Self, CoordinatesError>)
        ensures
            match r {
                Ok(row) => RowNumber::parsed(s@) == Some(row),
                Err(e) => RowNumber::parsed(s@) is None && e.refused() == s@,
            },
    {
        RowNumber::from_str(s)
    }
}

impl From<RowNumber> for usize {
    fn from(value: RowNumber) -> (number: usize) {
        value.0
    }
}

impl FromSpecImpl<RowNumber> for usize {
    open spec fn obeys_from_spec() -> bool {
        true
    }

    open spec fn from_spec(value: RowNumber) -> usize {
        value.0
    }
}

/// Reading the notation that was written for a cell gives the cell back.
pub proof fn parse_inverts_format(coords: Coordinates)
    ensures
        Coordinates::parsed(coords.text()) == Some(coords),
{
    notation_denotes_its_cell(coords.row as nat, coords.col as nat);
}

/// Reading the letters that were written for a row gives the row back.
pub proof fn row_parse_inverts_format(row: RowNumber)
    ensures
        RowNumber::parsed(row.text()) == Some(row),
{
    row_letters_are_letters(row.0 as nat);
    letters_value_of_row_letters(row.0 as nat);
}

/// A step leads nowhere exactly where it would leave the non-negative rows
/// and columns, as long as the cell it leads to can be held: upwards when the
/// row is less than the length, leftwards when the column is, and never for
/// the others.
pub proof fn step_is_absent_only_off_the_edge(origin: Coordinates, dir: Dir, length: usize)
    requires
        origin.row + length <= usize::MAX,
        origin.col + length <= usize::MAX,
    ensures
        origin.moved(dir, length as int) is None <==> match dir {
            Dir::Up | Dir::UpRight => origin.row < length,
            Dir::DownLeft | Dir::Left => origin.col < length,
            Dir::UpLeft => origin.row < length || origin.col < length,
            Dir::Right | Dir::DownRight | Dir::Down => false,
        },
{
}

/// Walking back from where a walk has led returns to the start.
pub proof fn walking_back_returns(origin: Coordinates, dir: Dir, length: usize)
    ensures
        origin.moved(dir, length as int) matches Some(there) ==> there.moved(
            dir.inverse(),
            length as int,
        ) == Some(origin),
{
}

} // verus!
