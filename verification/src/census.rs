use vstd::prelude::*;
use crate::board::{cells, opening, Board};
use crate::piece::Piece;

verus! {

impl Board {
    /// 1 if the square `(x, y)` is on the board and holds `piece`, else 0.
    pub open spec fn one_if_holds(self, x: int, y: int, piece: Piece) -> nat {
        if self.holds((x, y), piece) { 1 } else { 0 }
    }

    /// How many squares of column `x` hold `piece`.
    pub open spec fn in_column(self, x: int, piece: Piece) -> nat {
        self.one_if_holds(x, 0, piece) + self.one_if_holds(x, 1, piece) + self.one_if_holds(
            x,
            2,
            piece,
        ) + self.one_if_holds(x, 3, piece) + self.one_if_holds(x, 4, piece) + self.one_if_holds(
            x,
            5,
            piece,
        ) + self.one_if_holds(x, 6, piece) + self.one_if_holds(x, 7, piece) + self.one_if_holds(
            x,
            8,
            piece,
        ) + self.one_if_holds(x, 9, piece) + self.one_if_holds(x, 10, piece) + self.one_if_holds(
            x,
            11,
            piece,
        ) + self.one_if_holds(x, 12, piece) + self.one_if_holds(x, 13, piece) + self.one_if_holds(
            x,
            14,
            piece,
        )
    }

    /// How many squares among the first `n` of the enclosing square hold
    /// `piece`.
    pub open spec fn held_among(self, n: int, piece: Piece) -> nat {
        cells().take(n).filter(|p: (int, int)| self.holds(p, piece)).len()
    }

    /// One more square adds one to the count if it holds the piece.
    pub proof fn lemma_held_step(self, x: int, y: int, piece: Piece)
        requires
            0 <= x < 15,
            0 <= y < 15,
        ensures
            self.held_among(15 * x + y + 1, piece) == self.held_among(15 * x + y, piece)
                + self.one_if_holds(x, y, piece),
    {
        let n = 15 * x + y;
        reveal(Seq::filter);
        assert(cells().take(n + 1).drop_last() =~= cells().take(n));
        assert(cells().take(n + 1).last() == (x, y));
    }

    /// A column adds to the count the number of its squares that hold the
    /// piece.
    pub proof fn lemma_held_column(self, x: int, piece: Piece)
        requires
            0 <= x < 15,
        ensures
            self.held_among(15 * (x + 1), piece) == self.held_among(15 * x, piece)
                + self.in_column(x, piece),
    {
        self.lemma_held_step(x, 0, piece);
        self.lemma_held_step(x, 1, piece);
        self.lemma_held_step(x, 2, piece);
        self.lemma_held_step(x, 3, piece);
        self.lemma_held_step(x, 4, piece);
        self.lemma_held_step(x, 5, piece);
        self.lemma_held_step(x, 6, piece);
        self.lemma_held_step(x, 7, piece);
        self.lemma_held_step(x, 8, piece);
        self.lemma_held_step(x, 9, piece);
        self.lemma_held_step(x, 10, piece);
        self.lemma_held_step(x, 11, piece);
        self.lemma_held_step(x, 12, piece);
        self.lemma_held_step(x, 13, piece);
        self.lemma_held_step(x, 14, piece);
    }

    /// The number of squares that hold a piece is the sum over the fifteen
    /// columns.
    pub proof fn lemma_census_by_columns(self, piece: Piece)
        ensures
            self.squares_holding(piece).len() == self.in_column(0, piece) + self.in_column(
                1,
                piece,
            ) + self.in_column(2, piece) + self.in_column(3, piece) + self.in_column(4, piece)
                + self.in_column(5, piece) + self.in_column(6, piece) + self.in_column(7, piece)
                + self.in_column(8, piece) + self.in_column(9, piece) + self.in_column(10, piece)
                + self.in_column(11, piece) + self.in_column(12, piece) + self.in_column(
                13,
                piece,
            ) + self.in_column(14, piece),
    {
        reveal(Seq::filter);
        assert(self.held_among(0, piece) == 0);
        assert(cells().take(225) =~= cells());
        self.lemma_held_column(0, piece);
        self.lemma_held_column(1, piece);
        self.lemma_held_column(2, piece);
        self.lemma_held_column(3, piece);
        self.lemma_held_column(4, piece);
        self.lemma_held_column(5, piece);
        self.lemma_held_column(6, piece);
        self.lemma_held_column(7, piece);
        self.lemma_held_column(8, piece);
        self.lemma_held_column(9, piece);
        self.lemma_held_column(10, piece);
        self.lemma_held_column(11, piece);
        self.lemma_held_column(12, piece);
        self.lemma_held_column(13, piece);
        self.lemma_held_column(14, piece);
    }

    /// Whether the pieces stand as they do when a game begins.
    pub open spec fn is_opening(self) -> bool {
        forall|x: int, y: int|
            0 <= x < 15 && 0 <= y < 15 ==> #[trigger] self@[x][y] == opening((x, y))
    }

    /// In the opening position the two outermost columns hold four dwarves
    /// each, the middle column none and every other column two; the trolls stand
    /// in the three middle columns, around the thudstone.
    pub proof fn lemma_opening_column(self, x: int)
        requires
            self.is_opening(),
            0 <= x < 15,
        ensures
            self.in_column(x, Piece::Dwarf) == (if x == 0 || x == 14 {
                4nat
            } else if x == 7 {
                0nat
            } else {
                2nat
            }),
            self.in_column(x, Piece::Troll) == (if x == 6 || x == 8 {
                3nat
            } else if x == 7 {
                2nat
            } else {
                0nat
            }),
            self.in_column(x, Piece::Thudstone) == (if x == 7 { 1nat } else { 0nat }),
    {
        assert(self.at((x, 0)) == opening((x, 0)));
        assert(self.at((x, 1)) == opening((x, 1)));
        assert(self.at((x, 2)) == opening((x, 2)));
        assert(self.at((x, 3)) == opening((x, 3)));
        assert(self.at((x, 4)) == opening((x, 4)));
        assert(self.at((x, 5)) == opening((x, 5)));
        assert(self.at((x, 6)) == opening((x, 6)));
        assert(self.at((x, 7)) == opening((x, 7)));
        assert(self.at((x, 8)) == opening((x, 8)));
        assert(self.at((x, 9)) == opening((x, 9)));
        assert(self.at((x, 10)) == opening((x, 10)));
        assert(self.at((x, 11)) == opening((x, 11)));
        assert(self.at((x, 12)) == opening((x, 12)));
        assert(self.at((x, 13)) == opening((x, 13)));
        assert(self.at((x, 14)) == opening((x, 14)));
    }

    /// The opening position has exactly 32 dwarves, 8 trolls and one
    /// thudstone, which stands on `(7, 7)`; the score is 32 to 32.
    pub proof fn lemma_opening_census(self)
        requires
            self.is_opening(),
        ensures
            self.squares_holding(Piece::Dwarf).len() == 32,
            self.squares_holding(Piece::Troll).len() == 8,
            self.squares_holding(Piece::Thudstone) == seq![(7int, 7int)],
            self.tally_score() == (32nat, 32nat),
    {
        self.lemma_census_by_columns(Piece::Dwarf);
        self.lemma_census_by_columns(Piece::Troll);
        self.lemma_census_by_columns(Piece::Thudstone);
        self.lemma_opening_column(0);
        self.lemma_opening_column(1);
        self.lemma_opening_column(2);
        self.lemma_opening_column(3);
        self.lemma_opening_column(4);
        self.lemma_opening_column(5);
        self.lemma_opening_column(6);
        self.lemma_opening_column(7);
        self.lemma_opening_column(8);
        self.lemma_opening_column(9);
        self.lemma_opening_column(10);
        self.lemma_opening_column(11);
        self.lemma_opening_column(12);
        self.lemma_opening_column(13);
        self.lemma_opening_column(14);
        let stones = self.squares_holding(Piece::Thudstone);
        assert(stones.len() == 1);
        cells().lemma_filter_pred(|p: (int, int)| self.holds(p, Piece::Thudstone), 0);
        assert(stones =~= seq![(7int, 7int)]);
    }
}

} // verus!
