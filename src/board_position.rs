//! Squares of the board, addressed by file and rank, and their algebraic names.
use vstd::prelude::*;
use vstd::string::StrSliceExecFns;

verus! {

/// A square: file `x` (0 for a, 7 for h) and rank `y` (0 for 1, 7 for 8).
#[derive(Debug, Hash, Clone, Copy, PartialEq, Eq, Structural)]
pub struct BoardPosition(u8, u8);

/// Why a text could not be read as a square.
#[derive(Debug, Clone, PartialEq, Eq)]
pub enum BoardPositionError {
    Invalid(String),
}

/// True when (x, y) lies on the 8x8 board.
pub open spec fn in_bounds(x: int, y: int) -> bool {
    0 <= x < 8 && 0 <= y < 8
}

/// The square with file `x` and rank `y`.
pub closed spec fn at(x: int, y: int) -> BoardPosition {
    BoardPosition(x as u8, y as u8)
}

/// A square is read back from its own coordinates.
pub broadcast proof fn lemma_at(x: int, y: int)
    requires
        in_bounds(x, y),
    ensures
        #[trigger] at(x, y).col() == x,
        at(x, y).row() == y,
{
}

/// Every square is the one its coordinates name, and lies on the board.
pub broadcast proof fn lemma_coords(p: BoardPosition)
    ensures
        #![trigger p.col()]
        #![trigger p.row()]
        at(p.col(), p.row()) == p,
        0 <= p.col() < 256,
        0 <= p.row() < 256,
{
}

pub broadcast group group_position {
    lemma_at,
    lemma_coords,
}

/// The lower-case form of a file letter; other characters are kept.
pub open spec fn fold_file(c: char) -> char {
    if 'A' <= c && c <= 'H' {
        ((c as u32) + 32) as char
    } else {
        c
    }
}

/// The square that a two-character algebraic name denotes, if any.
pub open spec fn parse_square(s: Seq<char>) -> Option<BoardPosition> {
    if s.len() == 2 && 'a' <= fold_file(s[0]) && fold_file(s[0]) <= 'h' && '1' <= s[1] && s[1]
        <= '8' {
        Some(at(fold_file(s[0]) as int - 'a' as int, s[1] as int - '1' as int))
    } else {
        None
    }
}

impl BoardPosition {
    #[verifier::type_invariant]
    closed spec fn on_board(self) -> bool {
        self.0 < 8 && self.1 < 8
    }

    /// The file of the square, 0 to 7 for every square held by executable code.
    pub closed spec fn col(self) -> int {
        self.0 as int
    }

    /// The rank of the square, 0 to 7 for every square held by executable code.
    pub closed spec fn row(self) -> int {
        self.1 as int
    }

    /// True when the coordinates lie on the board.
    pub open spec fn valid(self) -> bool {
        in_bounds(self.col(), self.row())
    }

    /// The square with file `x` and rank `y`; both must be below 8.
    pub fn new(x: u8, y: u8) -> (r: Self)
        requires
            x < 8,
            y < 8,
        ensures
            r == at(x as int, y as int),
            r.col() == x,
            r.row() == y,
    {
        BoardPosition(x, y)
    }

    pub fn x(&self) -> (r: u8)
        ensures
            r == self.col(),
            r < 8,
    {
        proof {
            use_type_invariant(self);
        }
        self.0
    }

    pub fn y(&self) -> (r: u8)
        ensures
            r == self.row(),
            r < 8,
    {
        proof {
            use_type_invariant(self);
        }
        self.1
    }

    /// Reads an algebraic name such as "e4"; the file letter may be upper case.
    pub fn parse(s: &str) -> (r: Result<BoardPosition, BoardPositionError>)
        ensures
            r is Ok <==> parse_square(s@) is Some,
            r is Ok ==> r->Ok_0 == parse_square(s@)->0,
            r is Err ==> r->Err_0 is Invalid && r->Err_0->Invalid_0@ == s@,
    {
        let len = s.unicode_len();
        if len != 2 {
            return Err(BoardPositionError::Invalid(s.to_owned()));
        }
        let c0 = s.get_char(0);
        let file = if 'A' <= c0 && c0 <= 'H' {
            ((c0 as u32) + 32) as u8
        } else if 'a' <= c0 && c0 <= 'h' {
            c0 as u8
        } else {
            return Err(BoardPositionError::Invalid(s.to_owned()));
        };
        let c1 = s.get_char(1);
        if !('1' <= c1 && c1 <= '8') {
            return Err(BoardPositionError::Invalid(s.to_owned()));
        }
        let x: u8 = file - 97;
        let y: u8 = (c1 as u8) - 49;
        Ok(BoardPosition::new(x, y))
    }
}

impl core::str::FromStr for BoardPosition {
    type Err = BoardPositionError;

    fn from_str(s: &str) -> Result<Self, Self::Err> {
        BoardPosition::parse(s)
    }
}

} // verus!
