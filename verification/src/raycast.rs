use vstd::prelude::*;
use crate::board::Board;
use crate::coord::{on_board, Coord};
use crate::direction::Direction;
use crate::piece::Piece;

verus! {

/// How many steps in direction `d` the enclosing square allows from `p`, at most.
pub open spec fn edge_distance(p: (int, int), d: Direction) -> int {
    let (dx, dy) = d.delta();
    if dx == 1 {
        14 - p.0
    } else if dx == -1 {
        p.0
    } else if dy == 1 {
        14 - p.1
    } else {
        p.1
    }
}

/// The squares that lie beyond `p` in direction `d`, nearest first, up to the
/// last one before a step would leave the board. `p` itself is not among them.
pub open spec fn ray(p: (int, int), d: Direction) -> Seq<(int, int)>
    decreases edge_distance(p, d),
{
    if on_board(d.step(p)) {
        seq![d.step(p)] + ray(d.step(p), d)
    } else {
        Seq::empty()
    }
}

/// The `i`-th square of a ray is `i + 1` steps from its origin, and is on the
/// board.
pub proof fn lemma_ray_index(p: (int, int), d: Direction, i: int)
    requires
        0 <= i < ray(p, d).len(),
    ensures
        ray(p, d)[i] == d.offset(p, i + 1),
        on_board(ray(p, d)[i]),
    decreases i,
{
    assert(d.offset(p, 1) == d.step(p));
    if i > 0 {
        lemma_ray_index(d.step(p), d, i - 1);
        assert(d.offset(d.step(p), i) == d.offset(p, i + 1));
    }
}

/// A ray from a square of the board reaches every square of the board on its
/// line.
pub proof fn lemma_ray_reaches(p: (int, int), d: Direction, n: int)
    requires
        on_board(p),
        on_board(d.offset(p, n)),
        0 <= n,
    ensures
        n <= ray(p, d).len(),
    decreases n,
{
    if n > 0 {
        Direction::lemma_between_on_board(d, p, n, 1);
        assert(d.offset(p, 1) == d.step(p));
        assert(d.offset(d.step(p), n - 1) == d.offset(p, n));
        lemma_ray_reaches(d.step(p), d, n - 1);
    }
}

/// A ray ends where the board ends: one step beyond its last square, or
/// beyond its origin if it is empty, no square is left.
pub proof fn lemma_ray_stops(p: (int, int), d: Direction)
    ensures
        !on_board(d.offset(p, ray(p, d).len() as int + 1)),
    decreases edge_distance(p, d),
{
    assert(d.offset(p, 1) == d.step(p));
    if on_board(d.step(p)) {
        lemma_ray_stops(d.step(p), d);
        assert(d.offset(d.step(p), ray(d.step(p), d).len() as int + 1) == d.offset(
            p,
            ray(p, d).len() as int + 1,
        ));
    }
}

/// No ray is longer than its origin's distance to the edge, which is 14 at most.
pub proof fn lemma_ray_bounded(p: (int, int), d: Direction)
    requires
        on_board(p),
    ensures
        ray(p, d).len() <= edge_distance(p, d) <= 14,
    decreases edge_distance(p, d),
{
    if on_board(d.step(p)) {
        lemma_ray_bounded(d.step(p), d);
    }
}

/// A walk over the squares of a ray, one at a time, together with what the
/// board holds on each.
pub struct RayCast<'a> {
    board: &'a Board,
    next_place: Option<Coord>,
    dir: Direction,
}

impl<'a> RayCast<'a> {
    /// The squares that the walk has yet to give, nearest first.
    pub closed spec fn remaining(&self) -> Seq<(int, int)> {
        match self.next_place {
            Some(c) => seq![c@] + ray(c@, self.dir),
            None => Seq::empty(),
        }
    }

    /// The board that the walk reads.
    pub closed spec fn source(&self) -> Board {
        *self.board
    }

    /// Starts a walk from `start` in direction `dir`. `start` itself is not given.
    pub fn new(board: &'a Board, start: Coord, dir: Direction) -> (r: RayCast<'a>)
        ensures
            r.remaining() == ray(start@, dir),
            r.source() == *board,
    {
        let next_place = match dir.modify(start) {
            Ok(c) => Some(c),
            Err(_) => None,
        };
        RayCast { board, next_place, dir }
    }

    /// Gives the next square of the walk and the piece on it, or `None` once the
    /// edge of the board is reached.
    pub fn next(&mut self) -> (r: Option<(Coord, Piece)>)
        ensures
            final(self).source() == old(self).source(),
            old(self).remaining().len() == 0 ==> r is None && final(self).remaining().len() == 0,
            old(self).remaining().len() > 0 ==> r is Some && r->Some_0.0@ == old(
                self,
            ).remaining()[0] && r->Some_0.1 == old(self).source().at(r->Some_0.0@)
                && final(self).remaining() == old(self).remaining().drop_first(),
    {
        match self.next_place {
            Some(coord) => {
                self.next_place = match self.dir.modify(coord) {
                    Ok(c) => Some(c),
                    Err(_) => None,
                };
                proof {
                    assert(old(self).remaining().drop_first() =~= ray(coord@, self.dir));
                }
                Some((coord, self.board.get(coord)))
            },
            None => None,
        }
    }
}

} // verus!
