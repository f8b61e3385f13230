use vstd::prelude::*;

verus! {

/// What a square of the board holds. An empty square holds the piece `Empty`.
#[derive(Debug, PartialEq, Eq, Structural, Copy, Clone)]
pub enum Piece {
    Dwarf,
    Troll,
    Thudstone,
    Empty,
}

impl Default for Piece {
    fn default() -> (r: Piece)
        ensures
            r == Piece::Empty,
    {
        Piece::Empty
    }
}

impl Piece {
    /// The number that stands for the piece in a flat encoding of the board.
    pub open spec fn code(self) -> int {
        match self {
            Piece::Empty => 0,
            Piece::Dwarf => 1,
            Piece::Troll => 2,
            Piece::Thudstone => 3,
        }
    }

    /// The piece as a number: 0 for empty, 1 dwarf, 2 troll, 3 thudstone.
    pub fn into_int(&self) -> (r: usize)
        ensures
            r as int == self.code(),
    {
        match self {
            Piece::Empty => 0,
            Piece::Dwarf => 1,
            Piece::Troll => 2,
            Piece::Thudstone => 3,
        }
    }
}

} // verus!
