use vstd::prelude::*;
use crate::board::{put, Board};
use crate::coord::{chebyshev, Coord};
use crate::direction::Direction;
use crate::piece::Piece;
use crate::ThudError;

verus! {

/// The grid `g` after the piece `mover` has gone from `src` to `dst`, taking the
/// place of whatever stood there.
pub open spec fn relocated(
    g: Seq<Seq<Piece>>,
    src: (int, int),
    dst: (int, int),
    mover: Piece,
) -> Seq<Seq<Piece>> {
    put(put(g, src, Piece::Empty), dst, mover)
}

/// Whether two grids have their thudstones on the same squares.
pub open spec fn same_stones(a: Seq<Seq<Piece>>, b: Seq<Seq<Piece>>) -> bool {
    forall|x: int, y: int|
        0 <= x < 15 && 0 <= y < 15 ==> ((#[trigger] a[x][y] == Piece::Thudstone) <==> b[x][y]
            == Piece::Thudstone)
}

/// Taking one more member of a sequence adds that member to what it contains.
pub proof fn lemma_take_contains(s: Seq<Direction>, i: int, d: Direction)
    requires
        0 <= i < s.len(),
    ensures
        s.take(i + 1).contains(d) <==> (s.take(i).contains(d) || s[i] == d),
{
    let short = s.take(i);
    let long = s.take(i + 1);
    if short.contains(d) {
        let j = choose|j: int| 0 <= j < short.len() && short[j] == d;
        assert(long[j] == d);
    }
    if s[i] == d {
        assert(long[i] == d);
    }
    if long.contains(d) {
        let j = choose|j: int| 0 <= j < long.len() && long[j] == d;
        if j < i {
            assert(short[j] == d);
        }
    }
}

impl Board {
    /// Whether a troll may step from `troll` to `target`: a troll stands on the
    /// first, the second is empty, and the two are next to each other.
    pub open spec fn troll_may_step(self, troll: (int, int), target: (int, int)) -> bool {
        &&& self.at(troll) == Piece::Troll
        &&& self.at(target) == Piece::Empty
        &&& chebyshev(troll, target) == 1
    }

    /// What a straight slide from `src` to `dst` runs into: `Obstacle` with the
    /// first occupied square in between, `IllegalMove` where no straight line
    /// joins the two, else `Ok`.
    pub open spec fn slide(self, src: (int, int), dst: (int, int)) -> Result<(), ThudError> {
        match self.clear_path(src, dst) {
            Ok(_) => Ok(()),
            Err(ThudError::Obstacle(x, y)) => Err(ThudError::Obstacle(x, y)),
            Err(_) => Err(ThudError::IllegalMove),
        }
    }

    /// The supporting line behind a piece on `src` that heads for `dst`: the
    /// unbroken line of `piece` from `src`, itself included, away from `dst`.
    pub open spec fn backing(self, src: (int, int), dst: (int, int), piece: Piece) -> nat {
        match Direction::route(dst, src) {
            Ok(d) => self.support(src, d, piece),
            Err(_) => 0,
        }
    }

    /// What a thrown piece of kind `piece` meets on its way from `src` to `dst`:
    /// the result of the slide, then `LineTooShort` with the distance and the
    /// supporting line where the line is the shorter of the two.
    pub open spec fn thrown(self, src: (int, int), dst: (int, int), piece: Piece) -> Result<
        (),
        ThudError,
    > {
        let dist = chebyshev(src, dst);
        let have = self.backing(src, dst, piece);
        if dist > have {
            Err(ThudError::LineTooShort(dist as usize, have as usize))
        } else {
            Ok(())
        }
    }

    /// The result of shoving the troll on `troll` to `target`.
    pub open spec fn shove_outcome(self, troll: (int, int), target: (int, int)) -> Result<
        (),
        ThudError,
    > {
        if self.at(troll) != Piece::Troll || self.at(target) != Piece::Empty {
            Err(ThudError::IllegalMove)
        } else if self.slide(troll, target) is Err {
            self.slide(troll, target)
        } else if !self.next_to(target, Piece::Dwarf) {
            Err(ThudError::IllegalMove)
        } else {
            self.thrown(troll, target, Piece::Troll)
        }
    }

    /// The result of moving the dwarf on `dwarf` to `target`.
    pub open spec fn dwarf_move_outcome(self, dwarf: (int, int), target: (int, int)) -> Result<
        (),
        ThudError,
    > {
        if self.at(dwarf) != Piece::Dwarf || self.at(target) != Piece::Empty {
            Err(ThudError::IllegalMove)
        } else {
            self.slide(dwarf, target)
        }
    }

    /// The result of hurling the dwarf on `dwarf` at `target`.
    pub open spec fn hurl_outcome(self, dwarf: (int, int), target: (int, int)) -> Result<
        (),
        ThudError,
    > {
        if self.at(dwarf) != Piece::Dwarf || self.at(target) != Piece::Troll {
            Err(ThudError::IllegalMove)
        } else if self.slide(dwarf, target) is Err {
            self.slide(dwarf, target)
        } else {
            self.thrown(dwarf, target, Piece::Dwarf)
        }
    }

    /// Whether a capture from `troll` in the directions `targets` takes the
    /// dwarf in direction `d`: `d` is asked for, and the square next to `troll`
    /// in that direction is on the board and holds a dwarf.
    pub open spec fn takes(self, troll: (int, int), targets: Seq<Direction>, d: Direction) -> bool {
        targets.contains(d) && self.holds(d.step(troll), Piece::Dwarf)
    }

    /// Whether a capture from `troll` in the directions `targets` empties `q`.
    pub open spec fn taken(self, troll: (int, int), targets: Seq<Direction>, q: (int, int)) -> bool {
        ||| (self.takes(troll, targets, Direction::Up) && q == Direction::Up.step(troll))
        ||| (self.takes(troll, targets, Direction::UpRight) && q == Direction::UpRight.step(troll))
        ||| (self.takes(troll, targets, Direction::Right) && q == Direction::Right.step(troll))
        ||| (self.takes(troll, targets, Direction::DownRight) && q == Direction::DownRight.step(
            troll,
        ))
        ||| (self.takes(troll, targets, Direction::Down) && q == Direction::Down.step(troll))
        ||| (self.takes(troll, targets, Direction::DownLeft) && q == Direction::DownLeft.step(
            troll,
        ))
        ||| (self.takes(troll, targets, Direction::Left) && q == Direction::Left.step(troll))
        ||| (self.takes(troll, targets, Direction::UpLeft) && q == Direction::UpLeft.step(troll))
    }

    /// 1 if the capture takes the dwarf in direction `d`, else 0.
    pub open spec fn tally(self, troll: (int, int), targets: Seq<Direction>, d: Direction) -> nat {
        if self.takes(troll, targets, d) { 1 } else { 0 }
    }

    /// How many dwarves a capture from `troll` in the directions `targets`
    /// takes. A direction that is named twice counts once.
    pub open spec fn capture_count(self, troll: (int, int), targets: Seq<Direction>) -> nat {
        self.tally(troll, targets, Direction::Up) + self.tally(troll, targets, Direction::UpRight)
            + self.tally(troll, targets, Direction::Right) + self.tally(
            troll,
            targets,
            Direction::DownRight,
        ) + self.tally(troll, targets, Direction::Down) + self.tally(
            troll,
            targets,
            Direction::DownLeft,
        ) + self.tally(troll, targets, Direction::Left) + self.tally(
            troll,
            targets,
            Direction::UpLeft,
        )
    }

    /// The grid after a capture from `troll` in the directions `targets`: the
    /// squares it takes are empty, all others are as before.
    pub open spec fn after_capture(self, troll: (int, int), targets: Seq<Direction>) -> Seq<
        Seq<Piece>,
    > {
        Seq::new(
            15,
            |x: int|
                Seq::new(
                    15,
                    |y: int|
                        if self.taken(troll, targets, (x, y)) {
                            Piece::Empty
                        } else {
                            self@[x][y]
                        },
                ),
        )
    }

    /// Moves a troll by one square. Fails with `IllegalMove`, and changes
    /// nothing, unless a troll stands on `troll`, `target` is empty and the two
    /// squares are next to each other.
    pub fn troll_move(&mut self, troll: Coord, target: Coord) -> (r: Result<(), ThudError>)
        ensures
            old(self).troll_may_step(troll@, target@) ==> r is Ok && final(self)@ == relocated(
                old(self)@,
                troll@,
                target@,
                Piece::Troll,
            ),
            !old(self).troll_may_step(troll@, target@) ==> r == Err::<(), ThudError>(
                ThudError::IllegalMove,
            ) && *final(self) == *old(self),
            same_stones(old(self)@, final(self)@),
    {
        if self.get(troll) != Piece::Troll || self.get(target) != Piece::Empty {
            return Err(ThudError::IllegalMove);
        }
        if troll.diff(target).max() != 1 {
            return Err(ThudError::IllegalMove);
        }
        proof {
            use_type_invariant(&troll);
            use_type_invariant(&target);
            self.lemma_is_grid();
        }
        self.place(troll, Piece::Empty);
        self.place(target, Piece::Troll);
        Ok(())
    }

    /// Shoves a troll along a straight line. The checks come in this order:
    /// `IllegalMove` unless a troll stands on `troll` and `target` is empty;
    /// `IllegalMove` where no straight line joins the two, `Obstacle` where a
    /// piece stands between them; `IllegalMove` where no dwarf is next to
    /// `target`; `LineTooShort` where the line of trolls behind `troll` is shorter
    /// than the distance. A shove that fails changes nothing.
    pub fn troll_shove(&mut self, troll: Coord, target: Coord) -> (r: Result<(), ThudError>)
        ensures
            r == old(self).shove_outcome(troll@, target@),
            r is Ok ==> final(self)@ == relocated(old(self)@, troll@, target@, Piece::Troll),
            r is Err ==> *final(self) == *old(self),
            same_stones(old(self)@, final(self)@),
    {
        if self.get(troll) != Piece::Troll || self.get(target) != Piece::Empty {
            return Err(ThudError::IllegalMove);
        }
        match self.verify_clear(troll, target) {
            Ok(_) => {},
            Err(ThudError::Obstacle(x, y)) => {
                return Err(ThudError::Obstacle(x, y));
            },
            Err(_) => {
                return Err(ThudError::IllegalMove);
            },
        }
        if !self.is_next_to(target, Piece::Dwarf) {
            return Err(ThudError::IllegalMove);
        }
        let troll_len = match Direction::from_route(target, troll) {
            Ok(back) => self.count_line(troll, back, Piece::Troll),
            Err(_) => 0,
        };
        let dist = troll.diff(target).max();
        if dist > troll_len {
            return Err(ThudError::LineTooShort(dist, troll_len));
        }
        proof {
            use_type_invariant(&troll);
            use_type_invariant(&target);
            self.lemma_is_grid();
        }
        self.place(troll, Piece::Empty);
        self.place(target, Piece::Troll);
        Ok(())
    }

    /// Moves a dwarf along a straight line to an empty square. `IllegalMove`
    /// unless a dwarf stands on `dwarf`, `target` is empty and a straight line
    /// joins the two; `Obstacle` where a piece stands between them. A move that
    /// fails changes nothing.
    pub fn dwarf_move(&mut self, dwarf: Coord, target: Coord) -> (r: Result<(), ThudError>)
        ensures
            r == old(self).dwarf_move_outcome(dwarf@, target@),
            r is Ok ==> final(self)@ == relocated(old(self)@, dwarf@, target@, Piece::Dwarf),
            r is Err ==> *final(self) == *old(self),
            same_stones(old(self)@, final(self)@),
    {
        if self.get(dwarf) != Piece::Dwarf || self.get(target) != Piece::Empty {
            return Err(ThudError::IllegalMove);
        }
        match self.verify_clear(dwarf, target) {
            Ok(_) => {},
            Err(ThudError::Obstacle(x, y)) => {
                return Err(ThudError::Obstacle(x, y));
            },
            Err(_) => {
                return Err(ThudError::IllegalMove);
            },
        }
        proof {
            use_type_invariant(&dwarf);
            use_type_invariant(&target);
            self.lemma_is_grid();
        }
        self.place(dwarf, Piece::Empty);
        self.place(target, Piece::Dwarf);
        Ok(())
    }

    /// Hurls a dwarf at a troll: the troll leaves the board and the dwarf takes
    /// its square. `IllegalMove` unless a dwarf stands on `dwarf`, a troll on
    /// `target`, and a straight line joins the two; `Obstacle` where a piece
    /// stands between them; `LineTooShort` where the line of dwarves behind
    /// `dwarf` is shorter than the distance. A hurl that fails changes nothing.
    pub fn dwarf_hurl(&mut self, dwarf: Coord, target: Coord) -> (r: Result<(), ThudError>)
        ensures
            r == old(self).hurl_outcome(dwarf@, target@),
            r is Ok ==> final(self)@ == relocated(old(self)@, dwarf@, target@, Piece::Dwarf),
            r is Err ==> *final(self) == *old(self),
            same_stones(old(self)@, final(self)@),
    {
        if self.get(dwarf) != Piece::Dwarf || self.get(target) != Piece::Troll {
            return Err(ThudError::IllegalMove);
        }
        match self.verify_clear(dwarf, target) {
            Ok(_) => {},
            Err(ThudError::Obstacle(x, y)) => {
                return Err(ThudError::Obstacle(x, y));
            },
            Err(_) => {
                return Err(ThudError::IllegalMove);
            },
        }
        let dwarf_len = match Direction::from_route(target, dwarf) {
            Ok(back) => self.count_line(dwarf, back, Piece::Dwarf),
            Err(_) => 0,
        };
        let dist = dwarf.diff(target).max();
        if dwarf_len < dist {
            return Err(ThudError::LineTooShort(dist, dwarf_len));
        }
        proof {
            use_type_invariant(&dwarf);
            use_type_invariant(&target);
            self.lemma_is_grid();
        }
        self.place(dwarf, Piece::Empty);
        self.place(target, Piece::Dwarf);
        Ok(())
    }

    /// Lets the troll on `troll` take the dwarves next to it in the directions
    /// `targets`, and says how many it took. A direction that leads off the
    /// board or to a square without a dwarf is passed over, and one that is named
    /// twice counts once. Fails with `IllegalMove`, and changes nothing, if no
    /// troll stands on `troll`.
    pub fn troll_capture(&mut self, troll: Coord, targets: Vec<Direction>) -> (r: Result<
        usize,
        ThudError,
    >)
        ensures
            old(self).at(troll@) != Piece::Troll ==> r == Err::<usize, ThudError>(
                ThudError::IllegalMove,
            ) && *final(self) == *old(self),
            old(self).at(troll@) == Piece::Troll ==> r == Ok::<usize, ThudError>(
                old(self).capture_count(troll@, targets@) as usize,
            ) && final(self)@ == old(self).after_capture(troll@, targets@),
            old(self).capture_count(troll@, targets@) == 0 ==> *final(self) == *old(self),
            old(self).capture_count(troll@, targets@) <= 8,
            same_stones(old(self)@, final(self)@),
    {
        if self.get(troll) != Piece::Troll {
            return Err(ThudError::IllegalMove);
        }
        let ghost start = *self;
        let mut captured: usize = 0;
        let mut i: usize = 0;
        proof {
            self.lemma_is_grid();
            assert(targets@.take(0).len() == 0);
            assert(self@ =~~= start.after_capture(troll@, targets@.take(0)));
        }
        while i < targets.len()
            invariant
                0 <= i <= targets.len(),
                start.at(troll@) == Piece::Troll,
                self@ == start.after_capture(troll@, targets@.take(i as int)),
                captured == start.capture_count(troll@, targets@.take(i as int)),
                captured <= 8,
            decreases targets.len() - i,
        {
            let target = targets[i];
            let ghost now = targets@.take(i + 1);
            proof {
                lemma_take_contains(targets@, i as int, Direction::Up);
                lemma_take_contains(targets@, i as int, Direction::UpRight);
                lemma_take_contains(targets@, i as int, Direction::Right);
                lemma_take_contains(targets@, i as int, Direction::DownRight);
                lemma_take_contains(targets@, i as int, Direction::Down);
                lemma_take_contains(targets@, i as int, Direction::DownLeft);
                lemma_take_contains(targets@, i as int, Direction::Left);
                lemma_take_contains(targets@, i as int, Direction::UpLeft);
            }
            match target.modify(troll) {
                Ok(coord) => {
                    if self.get(coord) == Piece::Dwarf {
                        self.place(coord, Piece::Empty);
                        captured += 1;
                    }
                },
                Err(_) => {},
            }
            proof {
                assert(self@ =~~= start.after_capture(troll@, now));
            }
            i += 1;
        }
        proof {
            assert(targets@.take(i as int) =~= targets@);
            if captured == 0 {
                assert(self@ =~~= start@);
                Board::lemma_same_grid(*self, start);
            }
        }
        Ok(captured)
    }
}

} // verus!
