use vstd::prelude::*;
use crate::coord::{on_board, points, Coord};
use crate::piece::Piece;

verus! {

/// Whether `g` has the shape of a board: 15 columns of 15 squares.
pub open spec fn is_grid(g: Seq<Seq<Piece>>) -> bool {
    &&& g.len() == 15
    &&& forall|x: int| 0 <= x < 15 ==> (#[trigger] g[x]).len() == 15
}

/// The grid `g` with `piece` on square `p`.
pub open spec fn put(g: Seq<Seq<Piece>>, p: (int, int), piece: Piece) -> Seq<Seq<Piece>> {
    g.update(p.0, g[p.0].update(p.1, piece))
}

/// The 225 squares of the enclosing square, column by column: `(0, 0)`,
/// `(0, 1)`, and so on to `(14, 14)`.
pub open spec fn cells() -> Seq<(int, int)> {
    Seq::new(225, |i: int| (i / 15, i % 15))
}

/// What square `p` holds when a game begins: the thudstone in the centre,
/// eight trolls around it, six dwarves on each of the four slanted edges and
/// two on each straight edge, beside its middle square; nothing anywhere else.
pub open spec fn opening(p: (int, int)) -> Piece {
    let (x, y) = p;
    if !on_board(p) {
        Piece::Empty
    } else if x == 7 && y == 7 {
        Piece::Thudstone
    } else if 6 <= x <= 8 && 6 <= y <= 8 {
        Piece::Troll
    } else if x + y == 5 || x - y == 9 || y - x == 9 || x + y == 23 {
        Piece::Dwarf
    } else if (x == 0 || x == 14) && (y == 6 || y == 8) {
        Piece::Dwarf
    } else if (y == 0 || y == 14) && (x == 6 || x == 8) {
        Piece::Dwarf
    } else {
        Piece::Empty
    }
}

/// A configuration of pieces on the board. It knows nothing of turns: every
/// move that the pieces allow is carried out.
#[derive(Debug, Copy, Clone)]
pub struct Board {
    squares: [[Piece; 15]; 15],
}

impl View for Board {
    type V = Seq<Seq<Piece>>;

    closed spec fn view(&self) -> Seq<Seq<Piece>> {
        Seq::new(15, |x: int| self.squares[x]@)
    }
}

impl Default for Board {
    /// The board with nothing on it.
    fn default() -> (r: Board)
        ensures
            is_grid(r@),
            forall|x: int, y: int| 0 <= x < 15 && 0 <= y < 15 ==> r@[x][y] == Piece::Empty,
    {
        let empty = Piece::Empty;
        let row: [Piece; 15] = vstd::array::array_fill_for_copy_types(empty);
        let squares: [[Piece; 15]; 15] = vstd::array::array_fill_for_copy_types(row);
        assert(forall|y: int| 0 <= y < 15 ==> row@[y] == Piece::Empty);
        assert(forall|x: int| 0 <= x < 15 ==> squares@[x] == row);
        Board { squares }
    }
}

impl Board {
    /// The piece on square `p`.
    pub open spec fn at(self, p: (int, int)) -> Piece {
        self@[p.0][p.1]
    }

    /// Whether `q` is a square of the board and holds `piece`.
    pub open spec fn holds(self, q: (int, int), piece: Piece) -> bool {
        on_board(q) && self.at(q) == piece
    }

    /// The squares of the board that hold `piece`, column by column.
    pub open spec fn squares_holding(self, piece: Piece) -> Seq<(int, int)> {
        cells().filter(|p: (int, int)| self.holds(p, piece))
    }

    /// The score of the two armies: one point for each dwarf, four for each
    /// troll.
    pub open spec fn tally_score(self) -> (nat, nat) {
        (self.squares_holding(Piece::Dwarf).len(), 4 * self.squares_holding(Piece::Troll).len())
    }

    /// Two boards with the same pieces on the same squares are the same board.
    pub proof fn lemma_same_grid(a: Board, b: Board)
        requires
            a@ == b@,
        ensures
            a == b,
    {
        assert forall|x: int| 0 <= x < 15 implies a.squares[x] == b.squares[x] by {
            assert(a@[x] == b@[x]);
            assert(a.squares[x] =~= b.squares[x]);
        }
        assert(a.squares =~= b.squares);
    }

    /// Every board is a grid of 15 by 15 squares.
    pub proof fn lemma_is_grid(self)
        ensures
            is_grid(self@),
    {
    }

    /// Puts a piece on a square, in place of what was there.
    pub fn place(&mut self, square: Coord, piece: Piece)
        ensures
            final(self)@ == put(old(self)@, square@, piece),
            final(self).at(square@) == piece,
            forall|q: (int, int)| on_board(q) && q != square@ ==> final(self).at(q) == old(self).at(q),
    {
        let (x, y) = square.value();
        self.squares[x][y] = piece;
        assert(final(self)@ =~= put(old(self)@, square@, piece));
    }

    /// The piece on a square.
    pub fn get(&self, square: Coord) -> (r: Piece)
        ensures
            r == self.at(square@),
    {
        let (x, y) = square.value();
        self.squares[x][y]
    }

    /// The board that holds on each square `(x, y)` what `squares[x][y]` is.
    pub fn from_raw(squares: [[Piece; 15]; 15]) -> (r: Board)
        ensures
            is_grid(r@),
            forall|x: int, y: int| 0 <= x < 15 && 0 <= y < 15 ==> r@[x][y] == squares[x][y],
    {
        Board { squares }
    }

    /// The whole grid, column by column: `r[x][y]` is what square `(x, y)` holds.
    pub fn full_raw(&self) -> (r: [[Piece; 15]; 15])
        ensures
            forall|x: int, y: int| 0 <= x < 15 && 0 <= y < 15 ==> r[x][y] == self@[x][y],
    {
        self.squares
    }

    /// The squares that hold `piece_type`, column by column.
    pub fn army(&self, piece_type: Piece) -> (r: Vec<Coord>)
        ensures
            points(r@) == self.squares_holding(piece_type),
            r@.len() <= 225,
    {
        let mut result: Vec<Coord> = Vec::new();
        let ghost keep = |p: (int, int)| self.holds(p, piece_type);
        proof {
            reveal(Seq::filter);
            assert(points(result@) =~= cells().take(0).filter(keep));
        }
        let mut x: usize = 0;
        while x < 15
            invariant
                0 <= x <= 15,
                keep == |p: (int, int)| self.holds(p, piece_type),
                points(result@) == cells().take(x * 15).filter(keep),
                result@.len() <= x * 15,
            decreases 15 - x,
        {
            let mut y: usize = 0;
            while y < 15
                invariant
                    0 <= x < 15,
                    0 <= y <= 15,
                    keep == |p: (int, int)| self.holds(p, piece_type),
                    points(result@) == cells().take(x * 15 + y).filter(keep),
                    result@.len() <= x * 15 + y,
                decreases 15 - y,
            {
                let ghost n = x * 15 + y;
                let ghost before = result@;
                proof {
                    reveal(Seq::filter);
                    assert(cells().take(n + 1).drop_last() =~= cells().take(n));
                    assert(cells().take(n + 1).last() == (x as int, y as int));
                }
                if self.squares[x][y] == piece_type {
                    match Coord::zero_based(x, y) {
                        Ok(coord) => {
                            result.push(coord);
                            proof {
                                assert(points(result@) =~= points(before).push(coord@));
                            }
                        },
                        Err(_) => {},
                    }
                }
                y += 1;
            }
            x += 1;
        }
        proof {
            assert(cells().take(225) =~= cells());
        }
        result
    }

    /// The scores of the two players, the dwarves' first: one point for each
    /// dwarf on the board and four for each troll.
    pub fn score(&self) -> (r: (usize, usize))
        ensures
            (r.0 as nat, r.1 as nat) == self.tally_score(),
    {
        let dwarves = self.army(Piece::Dwarf).len();
        let trolls = self.army(Piece::Troll).len() * 4;
        (dwarves, trolls)
    }

    /// The piece that begins the game on the square `(x, y)` of the board.
    fn opening_piece(x: usize, y: usize) -> (r: Piece)
        requires
            on_board((x as int, y as int)),
        ensures
            r == opening((x as int, y as int)),
    {
        if x == 7 && y == 7 {
            Piece::Thudstone
        } else if 6 <= x && x <= 8 && 6 <= y && y <= 8 {
            Piece::Troll
        } else if x + y == 5 || x == y + 9 || y == x + 9 || x + y == 23 {
            Piece::Dwarf
        } else if (x == 0 || x == 14) && (y == 6 || y == 8) {
            Piece::Dwarf
        } else if (y == 0 || y == 14) && (x == 6 || x == 8) {
            Piece::Dwarf
        } else {
            Piece::Empty
        }
    }

    /// A board with the pieces where they stand when a game begins.
    pub fn fresh() -> (r: Board)
        ensures
            is_grid(r@),
            r.is_opening(),
            r.squares_holding(Piece::Dwarf).len() == 32,
            r.squares_holding(Piece::Troll).len() == 8,
            r.squares_holding(Piece::Thudstone) == seq![(7int, 7int)],
    {
        let mut filled_board = Board::default();
        let mut x: usize = 0;
        while x < 15
            invariant
                0 <= x <= 15,
                is_grid(filled_board@),
                forall|a: int, b: int|
                    0 <= a < 15 && 0 <= b < 15 ==> filled_board@[a][b] == (if a < x {
                        opening((a, b))
                    } else {
                        Piece::Empty
                    }),
            decreases 15 - x,
        {
            let mut y: usize = 0;
            while y < 15
                invariant
                    0 <= x < 15,
                    0 <= y <= 15,
                    is_grid(filled_board@),
                    forall|a: int, b: int|
                        0 <= a < 15 && 0 <= b < 15 ==> filled_board@[a][b] == (if a < x || (a == x
                            && b < y) {
                            opening((a, b))
                        } else {
                            Piece::Empty
                        }),
                decreases 15 - y,
            {
                match Coord::zero_based(x, y) {
                    Ok(square) => {
                        filled_board.place(square, Board::opening_piece(x, y));
                    },
                    Err(_) => {},
                }
                y += 1;
            }
            x += 1;
        }
        proof {
            filled_board.lemma_opening_census();
        }
        filled_board
    }
}

} // verus!
