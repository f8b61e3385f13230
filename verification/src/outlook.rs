use vstd::prelude::*;
use crate::board::Board;
use crate::coord::{on_board, points, Coord};
use crate::direction::{all_directions, Direction};
use crate::piece::Piece;
use crate::raycast::{lemma_ray_bounded, ray};
use crate::sight::{lemma_run_at_least, lemma_run_is, run};
use crate::{EndState, Player};

verus! {

impl Board {
    /// How many squares of the ray from `loc` in direction `d`, counted from the
    /// nearest, the piece on `loc` may go to. A dwarf goes over empty squares,
    /// and onto a troll that ends them if the line of dwarves behind it is at
    /// least as long as the distance. A troll goes over empty squares, no further
    /// than the line of trolls behind it is long. Nothing else moves.
    pub open spec fn reach(self, loc: (int, int), d: Direction) -> nat {
        let line = self.line(loc, d);
        let free = run(line, Piece::Empty);
        match self.at(loc) {
            Piece::Dwarf => {
                if free < line.len() && line[free as int] == Piece::Troll && free + 1
                    <= self.support(loc, d.reversed(), Piece::Dwarf) {
                    free + 1
                } else {
                    free
                }
            },
            Piece::Troll => {
                let behind = self.support(loc, d.reversed(), Piece::Troll);
                if free < behind { free } else { behind }
            },
            _ => 0,
        }
    }

    /// The squares in direction `d` that the piece on `loc` may go to, nearest
    /// first.
    pub open spec fn moves_along(self, loc: (int, int), d: Direction) -> Seq<(int, int)> {
        ray(loc, d).take(self.reach(loc, d) as int)
    }

    /// The squares that the piece on `loc` may go to in the first `n` of the
    /// eight directions.
    pub open spec fn moves_within(self, loc: (int, int), n: int) -> Seq<(int, int)>
        decreases n,
    {
        if n <= 0 {
            Seq::empty()
        } else {
            self.moves_within(loc, n - 1) + self.moves_along(loc, all_directions()[n - 1])
        }
    }

    /// All the squares that the piece on `loc` may go to: direction by
    /// direction, and in each direction nearest first.
    pub open spec fn moves(self, loc: (int, int)) -> Seq<(int, int)> {
        self.moves_within(loc, 8)
    }

    /// How many squares the pieces on the squares `army` may go to, taken
    /// together.
    pub open spec fn moves_of(self, army: Seq<(int, int)>) -> nat
        decreases army.len(),
    {
        if army.len() == 0 {
            0
        } else {
            self.moves_of(army.drop_last()) + self.moves(army.last()).len()
        }
    }

    /// How many squares the pieces of kind `piece` may go to, taken together.
    pub open spec fn mobility(self, piece: Piece) -> nat {
        self.moves_of(self.squares_holding(piece))
    }

    /// Whether no piece of kind `piece` has a square to go to.
    pub open spec fn stuck(self, piece: Piece) -> bool {
        forall|p: (int, int)| #[trigger] self.holds(p, piece) ==> self.moves(p).len() == 0
    }

    /// Who is ahead on points.
    pub open spec fn verdict(self) -> EndState {
        let (dwarves, trolls) = self.tally_score();
        if dwarves > trolls {
            EndState::Won(Player::Dwarf)
        } else if trolls > dwarves {
            EndState::Won(Player::Troll)
        } else {
            EndState::Draw
        }
    }

    /// How the game stands: over, with the verdict on points, as soon as one of
    /// the two armies has no square to go to; open otherwise.
    pub open spec fn outcome(self) -> Option<EndState> {
        if self.mobility(Piece::Dwarf) == 0 || self.mobility(Piece::Troll) == 0 {
            Some(self.verdict())
        } else {
            None
        }
    }

    /// The squares that the piece on `loc` may go to, direction by direction
    /// and nearest first; none for an empty square or the thudstone.
    pub fn available_moves(&self, loc: Coord) -> (r: Vec<Coord>)
        ensures
            points(r@) == self.moves(loc@),
            r@.len() <= 112,
            self.at(loc@) != Piece::Dwarf && self.at(loc@) != Piece::Troll ==> r@.len() == 0,
    {
        let mut avail: Vec<Coord> = Vec::new();
        let piece = self.get(loc);
        proof {
            use_type_invariant(&loc);
        }
        let dirs = Direction::all();
        let mut i: usize = 0;
        proof {
            assert(points(avail@) =~= self.moves_within(loc@, 0));
        }
        while i < 8
            invariant
                0 <= i <= 8,
                on_board(loc@),
                piece == self.at(loc@),
                dirs@ == all_directions(),
                points(avail@) == self.moves_within(loc@, i as int),
                avail@.len() <= 14 * i,
            decreases 8 - i,
        {
            let dir = dirs[i];
            let behind = self.count_line(loc, dir.opposite(), piece);
            let ghost path = ray(loc@, dir);
            let ghost line = self.line(loc@, dir);
            let ghost base = points(avail@);
            let ghost base_len = avail@.len();
            proof {
                lemma_ray_bounded(loc@, dir);
                assert(base + path.take(0) =~= base);
            }
            let mut cast = self.cast(loc, dir);
            let mut count: usize = 0;
            let mut more = piece == Piece::Dwarf || piece == Piece::Troll;
            while more
                invariant
                    0 <= count <= path.len() <= 14,
                    on_board(loc@),
                    piece == self.at(loc@),
                    path == ray(loc@, dir),
                    line == self.line(loc@, dir),
                    behind as nat == self.support(loc@, dir.reversed(), piece),
                    more ==> cast.remaining() == path.skip(count as int),
                    cast.source() == *self,
                    more ==> piece == Piece::Dwarf || piece == Piece::Troll,
                    more ==> forall|j: int| 0 <= j < count ==> line[j] == Piece::Empty,
                    more && piece == Piece::Troll ==> count <= behind,
                    !more ==> count == self.reach(loc@, dir),
                    points(avail@) == base + path.take(count as int),
                    avail@.len() == base_len + count,
                decreases path.len() - count + (if more { 1int } else { 0int }),
            {
                if piece == Piece::Troll && count >= behind {
                    proof {
                        lemma_run_at_least(line, Piece::Empty, count as int);
                    }
                    more = false;
                } else {
                    match cast.next() {
                        None => {
                            proof {
                                lemma_run_is(line, Piece::Empty, count as int);
                            }
                            more = false;
                        },
                        Some((poss, found)) => {
                            let ghost before = avail@;
                            proof {
                                assert(path.skip(count as int).drop_first() =~= path.skip(
                                    count + 1,
                                ));
                                if found != Piece::Empty {
                                    lemma_run_is(line, Piece::Empty, count as int);
                                }
                            }
                            if found == Piece::Empty {
                                avail.push(poss);
                                count += 1;
                            } else if found == Piece::Troll && piece == Piece::Dwarf {
                                if count < behind {
                                    avail.push(poss);
                                    count += 1;
                                }
                                more = false;
                            } else {
                                more = false;
                            }
                            proof {
                                if avail@.len() > before.len() {
                                    assert(points(avail@) =~= points(before).push(poss@));
                                    assert(base + path.take(count as int) =~= (base + path.take(
                                        count - 1,
                                    )).push(poss@));
                                }
                            }
                        },
                    }
                }
            }
            proof {
                assert(self.moves_within(loc@, i + 1) == self.moves_within(loc@, i as int)
                    + self.moves_along(loc@, dir));
            }
            i += 1;
        }
        proof {
            if piece != Piece::Dwarf && piece != Piece::Troll {
                self.lemma_only_armies_move(loc@);
                assert(points(avail@).len() == avail@.len());
            }
        }
        avail
    }

    /// How many squares the pieces of kind `piece` may go to, taken together.
    pub fn count_moves(&self, piece: Piece) -> (r: usize)
        ensures
            r as nat == self.mobility(piece),
    {
        let army = self.army(piece);
        let ghost squares = points(army@);
        let mut total: usize = 0;
        let mut i: usize = 0;
        while i < army.len()
            invariant
                0 <= i <= army.len() <= 225,
                squares == points(army@),
                total as nat == self.moves_of(squares.take(i as int)),
                total <= 112 * i,
            decreases army.len() - i,
        {
            proof {
                assert(squares.take(i + 1).drop_last() =~= squares.take(i as int));
                assert(squares.take(i + 1).last() == army@[i as int]@);
            }
            total += self.available_moves(army[i]).len();
            i += 1;
        }
        proof {
            assert(squares.take(i as int) =~= squares);
        }
        total
    }

    /// Whether the game is over, and how it ended. It is over as soon as one of
    /// the two armies has no square to go to; the side with the higher score has
    /// then won, and equal scores are a draw. `None` while both armies can move.
    pub fn winner(&self) -> (r: Option<EndState>)
        ensures
            r == self.outcome(),
    {
        let dwarf_moves = self.count_moves(Piece::Dwarf);
        let troll_moves = self.count_moves(Piece::Troll);
        if troll_moves == 0 || dwarf_moves == 0 {
            let (dwarf_score, troll_score) = self.score();
            if dwarf_score > troll_score {
                Some(EndState::Won(Player::Dwarf))
            } else if troll_score > dwarf_score {
                Some(EndState::Won(Player::Troll))
            } else {
                Some(EndState::Draw)
            }
        } else {
            None
        }
    }
}

} // verus!
