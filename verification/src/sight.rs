use vstd::prelude::*;
use crate::board::Board;
use crate::coord::{chebyshev, on_board, Coord};
use crate::direction::{all_directions, Direction};
use crate::piece::Piece;
use crate::raycast::{lemma_ray_bounded, lemma_ray_index, lemma_ray_reaches, ray, RayCast};
use crate::ThudError;

verus! {

/// How many members at the start of `s` equal `piece`, one after the other.
pub open spec fn run(s: Seq<Piece>, piece: Piece) -> nat
    decreases s.len(),
{
    if s.len() == 0 || s[0] != piece {
        0
    } else {
        1 + run(s.drop_first(), piece)
    }
}

/// A run is at least as long as any stretch of equal members at the start.
pub proof fn lemma_run_at_least(s: Seq<Piece>, piece: Piece, k: int)
    requires
        0 <= k <= s.len(),
        forall|i: int| 0 <= i < k ==> s[i] == piece,
    ensures
        run(s, piece) >= k,
    decreases k,
{
    if k > 0 {
        lemma_run_at_least(s.drop_first(), piece, k - 1);
    }
}

/// A run ends at the first member that differs, or with the sequence.
pub proof fn lemma_run_is(s: Seq<Piece>, piece: Piece, k: int)
    requires
        0 <= k <= s.len(),
        forall|i: int| 0 <= i < k ==> s[i] == piece,
        k == s.len() || s[k] != piece,
    ensures
        run(s, piece) == k,
    decreases k,
{
    if k > 0 {
        lemma_run_is(s.drop_first(), piece, k - 1);
    }
}

/// Every member of a run equals the piece, and the member after it, if there
/// is one, does not.
pub proof fn lemma_run_members(s: Seq<Piece>, piece: Piece)
    ensures
        run(s, piece) <= s.len(),
        forall|i: int| 0 <= i < run(s, piece) ==> s[i] == piece,
        run(s, piece) < s.len() ==> s[run(s, piece) as int] != piece,
    decreases s.len(),
{
    if s.len() > 0 && s[0] == piece {
        let t = s.drop_first();
        lemma_run_members(t, piece);
        assert forall|i: int| 0 <= i < run(s, piece) implies s[i] == piece by {
            if i > 0 {
                assert(s[i] == t[i - 1]);
            }
        }
        if run(s, piece) < s.len() {
            assert(s[run(s, piece) as int] == t[run(t, piece) as int]);
        }
    }
}

impl Board {
    /// The pieces on the squares of the ray from `p` in direction `d`, nearest
    /// first.
    pub open spec fn line(self, p: (int, int), d: Direction) -> Seq<Piece> {
        ray(p, d).map_values(|q: (int, int)| self.at(q))
    }

    /// The length of the unbroken line of `piece` that starts on `p` and runs in
    /// direction `d`: 0 if `p` holds another piece, else 1 for `p` itself and 1
    /// for each square after it up to the first that holds something else.
    pub open spec fn support(self, p: (int, int), d: Direction, piece: Piece) -> nat {
        if self.at(p) != piece {
            0
        } else {
            1 + run(self.line(p, d), piece)
        }
    }

    /// Whether the straight way from `src` to `dst` is free. `MathError` where no
    /// straight line joins the two; `Obstacle` with the first occupied square
    /// that lies strictly between them; else `Ok`. What `dst` holds plays no part.
    pub open spec fn clear_path(self, src: (int, int), dst: (int, int)) -> Result<(), ThudError> {
        match Direction::route(src, dst) {
            Err(e) => Err(e),
            Ok(d) => {
                let free = run(self.line(src, d), Piece::Empty);
                if free < chebyshev(src, dst) - 1 {
                    let q = d.offset(src, free as int + 1);
                    Err(ThudError::Obstacle(q.0 as usize, q.1 as usize))
                } else {
                    Ok(())
                }
            },
        }
    }

    /// Whether one of the up to eight squares next to `p` holds `piece`.
    pub open spec fn next_to(self, p: (int, int), piece: Piece) -> bool {
        ||| self.holds(Direction::Up.step(p), piece)
        ||| self.holds(Direction::UpRight.step(p), piece)
        ||| self.holds(Direction::Right.step(p), piece)
        ||| self.holds(Direction::DownRight.step(p), piece)
        ||| self.holds(Direction::Down.step(p), piece)
        ||| self.holds(Direction::DownLeft.step(p), piece)
        ||| self.holds(Direction::Left.step(p), piece)
        ||| self.holds(Direction::UpLeft.step(p), piece)
    }

    /// The squares next to `p` that are on the board, each with what it holds,
    /// in the order of the eight directions.
    pub open spec fn neighbours(self, p: (int, int)) -> Seq<((int, int), Piece)> {
        all_directions().filter(|d: Direction| on_board(d.step(p))).map_values(
            |d: Direction| (d.step(p), self.at(d.step(p))),
        )
    }

    /// A walk over the squares beyond `loc` in direction `dir`.
    pub fn cast(&self, loc: Coord, dir: Direction) -> (r: RayCast<'_>)
        ensures
            r.remaining() == ray(loc@, dir),
            r.source() == *self,
    {
        RayCast::new(self, loc, dir)
    }

    /// Checks that nothing stands strictly between `src` and `dest`.
    pub fn verify_clear(&self, src: Coord, dest: Coord) -> (r: Result<(), ThudError>)
        ensures
            r == self.clear_path(src@, dest@),
    {
        let dir = match Direction::from_route(src, dest) {
            Ok(d) => d,
            Err(e) => {
                return Err(e);
            },
        };
        proof {
            use_type_invariant(&src);
            use_type_invariant(&dest);
        }
        let ghost path = ray(src@, dir);
        let ghost line = self.line(src@, dir);
        let ghost n = chebyshev(src@, dest@);
        proof {
            lemma_ray_reaches(src@, dir, n);
        }
        let mut cast = self.cast(src, dir);
        let ghost mut k: int = 0;
        loop
            invariant
                0 <= k < n <= path.len(),
                path == ray(src@, dir),
                line == self.line(src@, dir),
                n == chebyshev(src@, dest@),
                dir.offset(src@, n) == dest@,
                Direction::route(src@, dest@) == Ok::<Direction, ThudError>(dir),
                cast.remaining() == path.skip(k),
                cast.source() == *self,
                forall|i: int| 0 <= i < k ==> line[i] == Piece::Empty,
            decreases n - k,
        {
            match cast.next() {
                None => {
                    return Ok(());
                },
                Some((current, piece)) => {
                    proof {
                        lemma_ray_index(src@, dir, k);
                        assert(path.skip(k).drop_first() =~= path.skip(k + 1));
                        if current@ == dest@ {
                            Coord::lemma_same_square(current, dest);
                        }
                    }
                    if current == dest {
                        proof {
                            lemma_run_at_least(line, Piece::Empty, k);
                        }
                        return Ok(());
                    }
                    if piece != Piece::Empty {
                        proof {
                            lemma_run_is(line, Piece::Empty, k);
                        }
                        let (x, y) = current.value();
                        return Err(ThudError::Obstacle(x, y));
                    }
                    proof {
                        k = k + 1;
                    }
                },
            }
        }
    }

    /// Counts the unbroken line of `piece` that starts on `start` and runs in
    /// direction `dir`, `start` included.
    pub fn count_line(&self, start: Coord, dir: Direction, piece: Piece) -> (r: usize)
        ensures
            r as nat == self.support(start@, dir, piece),
            r <= 15,
    {
        if self.get(start) != piece {
            return 0;
        }
        proof {
            use_type_invariant(&start);
        }
        let ghost path = ray(start@, dir);
        let ghost line = self.line(start@, dir);
        proof {
            lemma_ray_bounded(start@, dir);
        }
        let mut cast = self.cast(start, dir);
        let mut length: usize = 1;
        loop
            invariant
                1 <= length <= path.len() + 1 <= 15,
                path == ray(start@, dir),
                line == self.line(start@, dir),
                cast.remaining() == path.skip(length - 1),
                cast.source() == *self,
                self.at(start@) == piece,
                forall|i: int| 0 <= i < length - 1 ==> line[i] == piece,
            decreases path.len() + 1 - length,
        {
            match cast.next() {
                None => {
                    proof {
                        lemma_run_is(line, piece, length - 1);
                    }
                    return length;
                },
                Some((_, cur_piece)) => {
                    proof {
                        assert(path.skip(length - 1).drop_first() =~= path.skip(length as int));
                    }
                    if cur_piece != piece {
                        proof {
                            lemma_run_is(line, piece, length - 1);
                        }
                        return length;
                    }
                    length += 1;
                },
            }
        }
    }

    /// The squares next to `square` that are on the board, each with the piece
    /// on it, in the order of the eight directions.
    pub fn adjacent(&self, square: Coord) -> (r: Vec<(Coord, Piece)>)
        ensures
            r@.map_values(|e: (Coord, Piece)| (e.0@, e.1)) == self.neighbours(square@),
    {
        let mut adjacent: Vec<(Coord, Piece)> = Vec::with_capacity(8);
        let dirs = Direction::all();
        let ghost keep = |d: Direction| on_board(d.step(square@));
        let ghost pair = |d: Direction| (d.step(square@), self.at(d.step(square@)));
        let ghost plain = |e: (Coord, Piece)| (e.0@, e.1);
        let mut i: usize = 0;
        proof {
            reveal(Seq::filter);
            assert(dirs@.take(0).filter(keep).map_values(pair) =~= adjacent@.map_values(plain));
        }
        while i < 8
            invariant
                0 <= i <= 8,
                dirs@ == all_directions(),
                keep == |d: Direction| on_board(d.step(square@)),
                pair == |d: Direction| (d.step(square@), self.at(d.step(square@))),
                plain == |e: (Coord, Piece)| (e.0@, e.1),
                adjacent@.map_values(plain) == dirs@.take(i as int).filter(keep).map_values(pair),
            decreases 8 - i,
        {
            let dir = dirs[i];
            let ghost before = adjacent@;
            proof {
                reveal(Seq::filter);
                assert(dirs@.take(i + 1).drop_last() =~= dirs@.take(i as int));
                assert(dirs@.take(i + 1).last() == dir);
            }
            match dir.modify(square) {
                Ok(coord) => {
                    adjacent.push((coord, self.get(coord)));
                    proof {
                        assert(adjacent@.map_values(plain) =~= before.map_values(plain).push(
                            pair(dir),
                        ));
                        assert(dirs@.take(i + 1).filter(keep).map_values(pair)
                            =~= dirs@.take(i as int).filter(keep).map_values(pair).push(pair(dir)));
                    }
                },
                Err(_) => {},
            }
            i += 1;
        }
        proof {
            assert(dirs@.take(8) =~= dirs@);
        }
        adjacent
    }

    /// Whether one of the squares next to `square` holds `piece`.
    pub fn is_next_to(&self, square: Coord, piece: Piece) -> (r: bool)
        ensures
            r == self.next_to(square@, piece),
    {
        let dirs = Direction::all();
        let mut found = false;
        let mut i: usize = 0;
        while i < 8
            invariant
                0 <= i <= 8,
                dirs@ == all_directions(),
                found <==> exists|j: int|
                    0 <= j < i && self.holds(#[trigger] dirs@[j].step(square@), piece),
            decreases 8 - i,
        {
            match dirs[i].modify(square) {
                Ok(coord) => {
                    if self.get(coord) == piece {
                        found = true;
                    }
                },
                Err(_) => {},
            }
            i += 1;
        }
        proof {
            if self.next_to(square@, piece) {
                assert(self.holds(dirs@[0].step(square@), piece) || self.holds(
                    dirs@[1].step(square@),
                    piece,
                ) || self.holds(dirs@[2].step(square@), piece) || self.holds(
                    dirs@[3].step(square@),
                    piece,
                ) || self.holds(dirs@[4].step(square@), piece) || self.holds(
                    dirs@[5].step(square@),
                    piece,
                ) || self.holds(dirs@[6].step(square@), piece) || self.holds(
                    dirs@[7].step(square@),
                    piece,
                ));
            }
        }
        found
    }
}

} // verus!
