use vstd::prelude::*;
use crate::actions::same_stones;
use crate::board::{cells, Board};
use crate::coord::{chebyshev, on_board, Coord};
use crate::direction::{aligned, all_directions, Direction};
use crate::piece::Piece;
use crate::raycast::{lemma_ray_index, lemma_ray_reaches, ray};
use crate::sight::{lemma_run_members, run};
use crate::ThudError;

verus! {

/// A square is among two lists joined exactly when it is in one of them.
pub proof fn lemma_joined_contains(a: Seq<(int, int)>, b: Seq<(int, int)>, q: (int, int))
    ensures
        (a + b).contains(q) <==> (a.contains(q) || b.contains(q)),
{
    let joined = a + b;
    if a.contains(q) {
        let i = choose|i: int| 0 <= i < a.len() && a[i] == q;
        assert(joined[i] == q);
    }
    if b.contains(q) {
        let i = choose|i: int| 0 <= i < b.len() && b[i] == q;
        assert(joined[a.len() + i] == q);
    }
    if joined.contains(q) {
        let i = choose|i: int| 0 <= i < joined.len() && joined[i] == q;
        if i < a.len() {
            assert(a[i] == q);
        } else {
            assert(b[i - a.len()] == q);
        }
    }
}

/// Two tests that agree on every member of a list pick the same members.
pub proof fn lemma_filter_agrees(
    s: Seq<(int, int)>,
    f: spec_fn((int, int)) -> bool,
    g: spec_fn((int, int)) -> bool,
)
    requires
        forall|i: int| 0 <= i < s.len() ==> f(#[trigger] s[i]) == g(s[i]),
    ensures
        s.filter(f) == s.filter(g),
    decreases s.len(),
{
    reveal(Seq::filter);
    if s.len() > 0 {
        let rest = s.drop_last();
        assert forall|i: int| 0 <= i < rest.len() implies f(#[trigger] rest[i]) == g(rest[i]) by {
            assert(rest[i] == s[i]);
        }
        lemma_filter_agrees(rest, f, g);
        assert(f(s[s.len() - 1]) == g(s[s.len() - 1]));
    }
}

impl Board {
    /// Boards with their thudstones on the same squares list the same squares
    /// for them. So no move, attack or capture moves, adds or removes a
    /// thudstone: a game that began with the one thudstone in the centre keeps
    /// it there.
    pub proof fn lemma_stones_stay(self, later: Board)
        requires
            same_stones(self@, later@),
        ensures
            later.squares_holding(Piece::Thudstone) == self.squares_holding(Piece::Thudstone),
    {
        let f = |p: (int, int)| self.holds(p, Piece::Thudstone);
        let g = |p: (int, int)| later.holds(p, Piece::Thudstone);
        assert forall|i: int| 0 <= i < cells().len() implies f(#[trigger] cells()[i]) == g(
            cells()[i],
        ) by {
            let p = cells()[i];
            assert(0 <= p.0 < 15 && 0 <= p.1 < 15);
            assert((self@[p.0][p.1] == Piece::Thudstone) <==> later@[p.0][p.1]
                == Piece::Thudstone);
        }
        lemma_filter_agrees(cells(), f, g);
    }

    /// A piece may go to the square `k` steps away in direction `d` exactly
    /// when `k` is within its reach in that direction.
    pub proof fn lemma_within_reach(self, loc: (int, int), d: Direction, k: int)
        requires
            on_board(loc),
            on_board(d.offset(loc, k)),
            k >= 1,
        ensures
            self.moves_along(loc, d).contains(d.offset(loc, k)) <==> k <= self.reach(loc, d),
            self.reach(loc, d) <= ray(loc, d).len(),
    {
        let path = ray(loc, d);
        let line = self.line(loc, d);
        let along = self.moves_along(loc, d);
        let q = d.offset(loc, k);
        lemma_ray_reaches(loc, d, k);
        lemma_ray_index(loc, d, k - 1);
        lemma_run_members(line, Piece::Empty);
        if k <= self.reach(loc, d) {
            assert(along[k - 1] == q);
        }
        if along.contains(q) {
            let i = choose|i: int| 0 <= i < along.len() && along[i] == q;
            lemma_ray_index(loc, d, i);
        }
    }

    /// Every square that a piece may go to lies on the board, on one line with
    /// the piece, within its reach in the direction of that line.
    pub proof fn lemma_destination_on_line(self, loc: (int, int), d: Direction, q: (int, int))
        requires
            on_board(loc),
            self.moves_along(loc, d).contains(q),
        ensures
            on_board(q),
            aligned(loc, q),
            Direction::route(loc, q) == Ok::<Direction, ThudError>(d),
            q == d.offset(loc, chebyshev(loc, q)),
            chebyshev(loc, q) <= self.reach(loc, d),
    {
        let along = self.moves_along(loc, d);
        let i = choose|i: int| 0 <= i < along.len() && along[i] == q;
        lemma_run_members(self.line(loc, d), Piece::Empty);
        lemma_ray_index(loc, d, i);
        Direction::lemma_route_of_offset(d, loc, i + 1);
    }

    /// A square is among those that a piece may go to exactly when it is among
    /// them in one of the eight directions.
    pub proof fn lemma_moves_by_direction(self, loc: (int, int), q: (int, int))
        ensures
            self.moves(loc).contains(q) <==> {
                ||| self.moves_along(loc, Direction::Up).contains(q)
                ||| self.moves_along(loc, Direction::UpRight).contains(q)
                ||| self.moves_along(loc, Direction::Right).contains(q)
                ||| self.moves_along(loc, Direction::DownRight).contains(q)
                ||| self.moves_along(loc, Direction::Down).contains(q)
                ||| self.moves_along(loc, Direction::DownLeft).contains(q)
                ||| self.moves_along(loc, Direction::Left).contains(q)
                ||| self.moves_along(loc, Direction::UpLeft).contains(q)
            },
    {
        assert(!self.moves_within(loc, 0).contains(q));
        self.lemma_moves_within_step(loc, 1, q);
        self.lemma_moves_within_step(loc, 2, q);
        self.lemma_moves_within_step(loc, 3, q);
        self.lemma_moves_within_step(loc, 4, q);
        self.lemma_moves_within_step(loc, 5, q);
        self.lemma_moves_within_step(loc, 6, q);
        self.lemma_moves_within_step(loc, 7, q);
        self.lemma_moves_within_step(loc, 8, q);
    }

    /// One more direction adds the squares that the piece may go to in it.
    pub proof fn lemma_moves_within_step(self, loc: (int, int), n: int, q: (int, int))
        requires
            1 <= n <= 8,
        ensures
            self.moves_within(loc, n).contains(q) <==> (self.moves_within(loc, n - 1).contains(q)
                || self.moves_along(loc, all_directions()[n - 1]).contains(q)),
    {
        lemma_joined_contains(
            self.moves_within(loc, n - 1),
            self.moves_along(loc, all_directions()[n - 1]),
            q,
        );
    }

    /// A square is among those that a piece may go to exactly when the two
    /// are on one line and the distance is within the piece's reach along it.
    pub proof fn lemma_destinations(self, loc: Coord, q: Coord)
        requires
            loc.wf(),
            q.wf(),
        ensures
            self.moves(loc@).contains(q@) <==> (aligned(loc@, q@) && chebyshev(loc@, q@)
                <= self.reach(loc@, Direction::route(loc@, q@)->Ok_0)),
    {
        self.lemma_moves_by_direction(loc@, q@);
        if aligned(loc@, q@) {
            Direction::lemma_offset_of_route(loc@, q@);
            let d = Direction::route(loc@, q@)->Ok_0;
            self.lemma_within_reach(loc@, d, chebyshev(loc@, q@));
        }
        if self.moves_along(loc@, Direction::Up).contains(q@) {
            self.lemma_destination_on_line(loc@, Direction::Up, q@);
        }
        if self.moves_along(loc@, Direction::UpRight).contains(q@) {
            self.lemma_destination_on_line(loc@, Direction::UpRight, q@);
        }
        if self.moves_along(loc@, Direction::Right).contains(q@) {
            self.lemma_destination_on_line(loc@, Direction::Right, q@);
        }
        if self.moves_along(loc@, Direction::DownRight).contains(q@) {
            self.lemma_destination_on_line(loc@, Direction::DownRight, q@);
        }
        if self.moves_along(loc@, Direction::Down).contains(q@) {
            self.lemma_destination_on_line(loc@, Direction::Down, q@);
        }
        if self.moves_along(loc@, Direction::DownLeft).contains(q@) {
            self.lemma_destination_on_line(loc@, Direction::DownLeft, q@);
        }
        if self.moves_along(loc@, Direction::Left).contains(q@) {
            self.lemma_destination_on_line(loc@, Direction::Left, q@);
        }
        if self.moves_along(loc@, Direction::UpLeft).contains(q@) {
            self.lemma_destination_on_line(loc@, Direction::UpLeft, q@);
        }
    }

    /// The squares that a dwarf may go to are exactly those to which it can
    /// move and those that hold a troll at which it can be hurled.
    pub proof fn lemma_dwarf_destinations(self, loc: Coord, q: Coord)
        requires
            loc.wf(),
            q.wf(),
            self.at(loc@) == Piece::Dwarf,
        ensures
            self.moves(loc@).contains(q@) <==> (self.dwarf_move_outcome(loc@, q@) is Ok
                || self.hurl_outcome(loc@, q@) is Ok),
    {
        self.lemma_destinations(loc, q);
        if aligned(loc@, q@) {
            Direction::lemma_offset_of_route(loc@, q@);
            let d = Direction::route(loc@, q@)->Ok_0;
            let n = chebyshev(loc@, q@);
            let line = self.line(loc@, d);
            lemma_ray_reaches(loc@, d, n);
            lemma_ray_index(loc@, d, n - 1);
            lemma_run_members(line, Piece::Empty);
            assert(line[n - 1] == self.at(q@));
        }
    }

    /// The squares that a troll may go to are exactly the empty squares on a
    /// line with it to which the way is free and which are no further away than
    /// the line of trolls behind it is long. Every square to which it can step
    /// or be shoved is among them.
    pub proof fn lemma_troll_destinations(self, loc: Coord, q: Coord)
        requires
            loc.wf(),
            q.wf(),
            self.at(loc@) == Piece::Troll,
        ensures
            self.moves(loc@).contains(q@) <==> (self.at(q@) == Piece::Empty && self.slide(
                loc@,
                q@,
            ) is Ok && self.thrown(loc@, q@, Piece::Troll) is Ok),
            self.troll_may_step(loc@, q@) ==> self.moves(loc@).contains(q@),
            self.shove_outcome(loc@, q@) is Ok ==> self.moves(loc@).contains(q@),
    {
        self.lemma_destinations(loc, q);
        if aligned(loc@, q@) {
            Direction::lemma_offset_of_route(loc@, q@);
            let d = Direction::route(loc@, q@)->Ok_0;
            let n = chebyshev(loc@, q@);
            let line = self.line(loc@, d);
            lemma_ray_reaches(loc@, d, n);
            lemma_ray_index(loc@, d, n - 1);
            lemma_run_members(line, Piece::Empty);
            assert(line[n - 1] == self.at(q@));
        }
    }

    /// Nothing but a dwarf or a troll has a square to go to.
    pub proof fn lemma_only_armies_move(self, loc: (int, int))
        requires
            self.at(loc) != Piece::Dwarf,
            self.at(loc) != Piece::Troll,
        ensures
            self.moves(loc).len() == 0,
    {
        assert(self.moves_within(loc, 0).len() == 0);
        assert(self.moves_within(loc, 1).len() == 0);
        assert(self.moves_within(loc, 2).len() == 0);
        assert(self.moves_within(loc, 3).len() == 0);
        assert(self.moves_within(loc, 4).len() == 0);
        assert(self.moves_within(loc, 5).len() == 0);
        assert(self.moves_within(loc, 6).len() == 0);
        assert(self.moves_within(loc, 7).len() == 0);
    }

    /// A piece that stands strictly between two squares on one line blocks the
    /// way from the first to the second: the path check names the occupied
    /// square that is nearest to the first.
    pub proof fn lemma_blocked_path(self, src: Coord, dst: Coord, k: int)
        requires
            src.wf(),
            dst.wf(),
            aligned(src@, dst@),
            0 < k < chebyshev(src@, dst@),
            self.at(Direction::route(src@, dst@)->Ok_0.offset(src@, k)) != Piece::Empty,
        ensures
            self.clear_path(src@, dst@) is Err,
            self.clear_path(src@, dst@)->Err_0 is Obstacle,
            self.slide(src@, dst@) == self.clear_path(src@, dst@),
            exists|j: int|
                {
                    let q = #[trigger] Direction::route(src@, dst@)->Ok_0.offset(src@, j);
                    &&& 0 < j <= k
                    &&& self.at(q) != Piece::Empty
                    &&& self.clear_path(src@, dst@) == Err::<(), ThudError>(
                        ThudError::Obstacle(q.0 as usize, q.1 as usize),
                    )
                },
    {
        let d = Direction::route(src@, dst@)->Ok_0;
        let n = chebyshev(src@, dst@);
        let line = self.line(src@, d);
        let free = run(line, Piece::Empty) as int;
        assert(d.offset(src@, n) == dst@);
        lemma_ray_reaches(src@, d, n);
        lemma_ray_index(src@, d, k - 1);
        lemma_run_members(line, Piece::Empty);
        assert(line[k - 1] != Piece::Empty);
        assert(free <= k - 1);
        lemma_ray_index(src@, d, free);
        assert(line[free] != Piece::Empty);
        let q = d.offset(src@, free + 1);
        assert(self.at(q) != Piece::Empty);
    }

    /// A dwarf never moves through a piece: where a dwarf stands on `src`,
    /// `dst` is empty and on one line with it, and some square strictly between
    /// the two is occupied, the move is refused with `Obstacle`.
    pub proof fn lemma_dwarf_move_obstructed(self, src: Coord, dst: Coord, k: int)
        requires
            src.wf(),
            dst.wf(),
            self.at(src@) == Piece::Dwarf,
            self.at(dst@) == Piece::Empty,
            aligned(src@, dst@),
            0 < k < chebyshev(src@, dst@),
            self.at(Direction::route(src@, dst@)->Ok_0.offset(src@, k)) != Piece::Empty,
        ensures
            self.dwarf_move_outcome(src@, dst@) is Err,
            self.dwarf_move_outcome(src@, dst@)->Err_0 is Obstacle,
    {
        self.lemma_blocked_path(src, dst, k);
    }

    /// An army is stuck exactly when its pieces, taken together, have no square
    /// to go to.
    pub proof fn lemma_stuck_means_no_moves(self, piece: Piece)
        ensures
            self.stuck(piece) <==> self.mobility(piece) == 0,
    {
        let keep = |p: (int, int)| self.holds(p, piece);
        let army = self.squares_holding(piece);
        self.lemma_moves_of_zero(army);
        if self.mobility(piece) == 0 {
            assert forall|p: (int, int)| #[trigger] self.holds(p, piece) implies self.moves(
                p,
            ).len() == 0 by {
                let n = p.0 * 15 + p.1;
                assert(cells()[n] == p);
                assert(keep(p));
                cells().lemma_filter_contains(keep, n);
            }
        }
        if self.stuck(piece) {
            assert forall|i: int| 0 <= i < army.len() implies self.moves(army[i]).len() == 0 by {
                cells().lemma_filter_pred(keep, i);
                assert(keep(army[i]));
            }
        }
    }

    /// The pieces on a list of squares have no square to go to, taken together,
    /// exactly when none of them has one.
    pub proof fn lemma_moves_of_zero(self, army: Seq<(int, int)>)
        ensures
            self.moves_of(army) == 0 <==> forall|i: int|
                0 <= i < army.len() ==> self.moves(#[trigger] army[i]).len() == 0,
        decreases army.len(),
    {
        if army.len() > 0 {
            let rest = army.drop_last();
            self.lemma_moves_of_zero(rest);
            if self.moves_of(army) == 0 {
                assert forall|i: int| 0 <= i < army.len() implies self.moves(
                    #[trigger] army[i],
                ).len() == 0 by {
                    if i < rest.len() {
                        assert(army[i] == rest[i]);
                    }
                }
            } else {
                if self.moves_of(rest) != 0 {
                    let i = choose|i: int|
                        0 <= i < rest.len() && self.moves(#[trigger] rest[i]).len() != 0;
                    assert(army[i] == rest[i]);
                } else {
                    assert(army[army.len() - 1] == army.last());
                }
            }
        }
    }
}

} // verus!
