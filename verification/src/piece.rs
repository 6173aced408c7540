//! The two colours, and the letter that stands for each in a serialized board.

use rand::Rng;
use std::ops::Not;
use vstd::prelude::*;
use vstd::std_specs::convert::FromSpecImpl;
use vstd::std_specs::ops::NotSpecImpl;

verus! {

/// The colour of a piece.
#[derive(Debug, PartialEq, Eq, Clone, Copy, Structural)]
pub enum Piece {
    Blue,
    Red,
}

impl Piece {
    /// The other colour.
    pub open spec fn opposite(self) -> Piece {
        match self {
            Piece::Blue => Piece::Red,
            Piece::Red => Piece::Blue,
        }
    }

    /// The letter that stands for this colour in a serialized board.
    pub open spec fn letter(self) -> char {
        match self {
            Piece::Blue => 'B',
            Piece::Red => 'R',
        }
    }

    /// The colour's name in English.
    pub open spec fn name(self) -> Seq<char> {
        match self {
            Piece::Blue => seq!['B', 'l', 'u', 'e'],
            Piece::Red => seq!['R', 'e', 'd'],
        }
    }

    /// The colour's name: `"Blue"` or `"Red"`.
    pub fn to_string(&self) -> (text: String)
        ensures
            text@ == self.name(),
    {
        proof {
            reveal_strlit("Blue");
            reveal_strlit("Red");
        }
        match self {
            Piece::Blue => {
                assert("Blue"@ =~= Piece::Blue.name());
                "Blue".to_owned()
            },
            Piece::Red => {
                assert("Red"@ =~= Piece::Red.name());
                "Red".to_owned()
            },
        }
    }

    /// The colour that a letter of a serialized board stands for. Only the two
    /// letters `'B'` and `'R'` stand for a colour.
    pub fn from(value: char) -> (piece: Piece)
        requires
            value == 'B' || value == 'R',
        ensures
            piece.letter() == value,
    {
        if value == 'R' {
            Piece::Red
        } else if value == 'B' {
            Piece::Blue
        } else {
            vstd::pervasive::unreached()
        }
    }

    /// The colour chosen by a coin: `Blue` for heads, `Red` for tails.
    pub fn from_coin(heads: bool) -> (piece: Piece)
        ensures
            piece == if heads {
                Piece::Blue
            } else {
                Piece::Red
            },
    {
        if heads {
            Piece::Blue
        } else {
            Piece::Red
        }
    }

    /// A colour chosen by the toss of a fair coin. Which colour comes out is
    /// not a function of anything the caller can see, so nothing is promised
    /// of it: `from_coin` says what each outcome of the toss gives.
    pub fn rand() -> (piece: Piece) {
        Piece::from_coin(toss(1, 2))
    }
}

/// Draws a boolean from the thread's random generator: calls
/// `rand::Rng::gen_ratio` on `rand::thread_rng()`, which gives `true` with
/// probability `numerator / denominator`. The call panics on a zero
/// denominator and on a numerator above the denominator, so both are ruled
/// out. Nothing is claimed of the boolean that comes back.
#[verifier::external_body]
fn toss(numerator: u32, denominator: u32) -> (heads: bool)
    requires
        0 < denominator,
        numerator <= denominator,
{
    rand::thread_rng().gen_ratio(numerator, denominator)
}

impl Not for Piece {
    type Output = Piece;

    fn not(self) -> (other: Piece) {
        match self {
            Piece::Blue => Piece::Red,
            Piece::Red => Piece::Blue,
        }
    }
}

impl NotSpecImpl for Piece {
    open spec fn obeys_not_spec() -> bool {
        true
    }

    open spec fn not_req(self) -> bool {
        true
    }

    open spec fn not_spec(self) -> Piece {
        self.opposite()
    }
}

impl From<Piece> for char {
    fn from(value: Piece) -> (letter: char) {
        match value {
            Piece::Blue => 'B',
            Piece::Red => 'R',
        }
    }
}

impl FromSpecImpl<Piece> for char {
    open spec fn obeys_from_spec() -> bool {
        true
    }

    open spec fn from_spec(value: Piece) -> char {
        value.letter()
    }
}

/// Each colour is the opposite of its opposite, and differs from it.
pub proof fn opposite_is_involutive(piece: Piece)
    ensures
        piece.opposite().opposite() == piece,
        piece.opposite() != piece,
{
}

} // verus!
