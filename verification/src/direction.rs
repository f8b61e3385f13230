use vstd::prelude::*;
use crate::coord::{abs, chebyshev, on_board, Coord};
use crate::ThudError;

verus! {

/// One of the eight compass directions on the board. `Up` raises `y`, `Right`
/// raises `x`.
#[derive(Debug, PartialEq, Eq, Structural, Copy, Clone)]
pub enum Direction {
    Up,
    UpRight,
    Right,
    DownRight,
    Down,
    DownLeft,
    Left,
    UpLeft,
}

/// The sign of `a`: -1, 0 or 1.
pub open spec fn signum(a: int) -> int {
    if a < 0 { -1 } else if a == 0 { 0 } else { 1 }
}

/// `k` times `s`, for a sign `s`.
pub open spec fn scaled(k: int, s: int) -> int {
    if s == 1 { k } else if s == -1 { -k } else { 0 }
}

/// Whether one straight line, horizontal, vertical or at 45 degrees, joins two
/// different points.
pub open spec fn aligned(a: (int, int), b: (int, int)) -> bool {
    a != b && (a.0 == b.0 || a.1 == b.1 || abs(a.0 - b.0) == abs(a.1 - b.1))
}

/// The eight directions, in the order in which the board scans them.
pub open spec fn all_directions() -> Seq<Direction> {
    seq![
        Direction::Up,
        Direction::UpRight,
        Direction::Right,
        Direction::DownRight,
        Direction::Down,
        Direction::DownLeft,
        Direction::Left,
        Direction::UpLeft,
    ]
}

impl Direction {
    /// The change that one step in this direction makes to `(x, y)`.
    pub open spec fn delta(self) -> (int, int) {
        match self {
            Direction::Up => (0, 1),
            Direction::UpRight => (1, 1),
            Direction::Right => (1, 0),
            Direction::DownRight => (1, -1),
            Direction::Down => (0, -1),
            Direction::DownLeft => (-1, -1),
            Direction::Left => (-1, 0),
            Direction::UpLeft => (-1, 1),
        }
    }

    /// The direction whose step changes `(x, y)` by the signs `(sx, sy)`; `None`
    /// for `(0, 0)` and for anything that is not a pair of signs.
    pub open spec fn with_delta(sx: int, sy: int) -> Option<Direction> {
        if (sx, sy) == (0int, 1int) {
            Some(Direction::Up)
        } else if (sx, sy) == (1int, 1int) {
            Some(Direction::UpRight)
        } else if (sx, sy) == (1int, 0int) {
            Some(Direction::Right)
        } else if (sx, sy) == (1int, -1int) {
            Some(Direction::DownRight)
        } else if (sx, sy) == (0int, -1int) {
            Some(Direction::Down)
        } else if (sx, sy) == (-1int, -1int) {
            Some(Direction::DownLeft)
        } else if (sx, sy) == (-1int, 0int) {
            Some(Direction::Left)
        } else if (sx, sy) == (-1int, 1int) {
            Some(Direction::UpLeft)
        } else {
            None
        }
    }

    /// The point one step from `p` in this direction.
    pub open spec fn step(self, p: (int, int)) -> (int, int) {
        (p.0 + self.delta().0, p.1 + self.delta().1)
    }

    /// The point `k` steps from `p` in this direction.
    pub open spec fn offset(self, p: (int, int), k: int) -> (int, int) {
        (p.0 + scaled(k, self.delta().0), p.1 + scaled(k, self.delta().1))
    }

    /// Where `n` single steps from `p` lead, each of them checked against the
    /// board: `None` as soon as one step would leave it.
    pub open spec fn walk(self, p: (int, int), n: nat) -> Option<(int, int)>
        decreases n,
    {
        if n == 0 {
            Some(p)
        } else if on_board(self.step(p)) {
            self.walk(self.step(p), (n - 1) as nat)
        } else {
            None
        }
    }

    /// The direction that points from `a` toward `b`, or `MathError` where the
    /// two are equal or share no line.
    pub open spec fn route(a: (int, int), b: (int, int)) -> Result<Direction, ThudError> {
        if aligned(a, b) {
            match Direction::with_delta(signum(b.0 - a.0), signum(b.1 - a.1)) {
                Some(d) => Ok(d),
                None => Err(ThudError::MathError),
            }
        } else {
            Err(ThudError::MathError)
        }
    }

    /// The direction that a number stands for, counting clockwise from `Right`,
    /// which is 0; `MathError` for a number that is not from 0 to 7.
    pub open spec fn numbered(n: int) -> Result<Direction, ThudError> {
        if n == 0 {
            Ok(Direction::Right)
        } else if n == 1 {
            Ok(Direction::DownRight)
        } else if n == 2 {
            Ok(Direction::Down)
        } else if n == 3 {
            Ok(Direction::DownLeft)
        } else if n == 4 {
            Ok(Direction::Left)
        } else if n == 5 {
            Ok(Direction::UpLeft)
        } else if n == 6 {
            Ok(Direction::Up)
        } else if n == 7 {
            Ok(Direction::UpRight)
        } else {
            Err(ThudError::MathError)
        }
    }

    /// The direction that turns every step of this one back.
    pub open spec fn reversed(self) -> Direction {
        match self {
            Direction::Up => Direction::Down,
            Direction::UpRight => Direction::DownLeft,
            Direction::Right => Direction::Left,
            Direction::DownRight => Direction::UpLeft,
            Direction::Down => Direction::Up,
            Direction::DownLeft => Direction::UpRight,
            Direction::Left => Direction::Right,
            Direction::UpLeft => Direction::DownRight,
        }
    }

    /// All eight directions, in a fixed order.
    pub fn all() -> (r: Vec<Direction>)
        ensures
            r@ == all_directions(),
    {
        let r = vec![
            Direction::Up,
            Direction::UpRight,
            Direction::Right,
            Direction::DownRight,
            Direction::Down,
            Direction::DownLeft,
            Direction::Left,
            Direction::UpLeft,
        ];
        assert(r@ =~= all_directions());
        r
    }

    /// The direction that a number from 0 to 7 stands for, counting clockwise
    /// from `Right`; `MathError` for any other number.
    pub fn from_num(dir: usize) -> (r: Result<Direction, ThudError>)
        ensures
            r == Direction::numbered(dir as int),
    {
        match dir {
            0 => Ok(Direction::Right),
            1 => Ok(Direction::DownRight),
            2 => Ok(Direction::Down),
            3 => Ok(Direction::DownLeft),
            4 => Ok(Direction::Left),
            5 => Ok(Direction::UpLeft),
            6 => Ok(Direction::Up),
            7 => Ok(Direction::UpRight),
            _ => Err(ThudError::MathError),
        }
    }

    /// The direction from one square to another. Fails with `MathError` if the
    /// two are the same square or no straight line joins them.
    pub fn from_route(start: Coord, end: Coord) -> (r: Result<Direction, ThudError>)
        ensures
            r == Direction::route(start@, end@),
            aligned(start@, end@) ==> r is Ok && r->Ok_0.offset(
                start@,
                chebyshev(start@, end@),
            ) == end@,
            !aligned(start@, end@) ==> r == Err::<Direction, ThudError>(ThudError::MathError),
    {
        let (sx, sy) = start.value();
        let (dx, dy) = end.value();
        if sx == dx && sy == dy {
            return Err(ThudError::MathError);
        }
        let diff = start.diff(end).value();

        if sx == dx {
            if sy < dy {
                Ok(Direction::Up)
            } else {
                Ok(Direction::Down)
            }
        } else if sy == dy {
            if sx < dx {
                Ok(Direction::Right)
            } else {
                Ok(Direction::Left)
            }
        } else if diff.0 == diff.1 {
            if sx < dx {
                if sy < dy {
                    Ok(Direction::UpRight)
                } else {
                    Ok(Direction::DownRight)
                }
            } else {
                if sy < dy {
                    Ok(Direction::UpLeft)
                } else {
                    Ok(Direction::DownLeft)
                }
            }
        } else {
            Err(ThudError::MathError)
        }
    }

    /// The change that one step in this direction makes to `(x, y)`.
    pub fn modifier(&self) -> (r: (isize, isize))
        ensures
            (r.0 as int, r.1 as int) == self.delta(),
    {
        match self {
            Direction::Up => (0, 1),
            Direction::UpRight => (1, 1),
            Direction::Right => (1, 0),
            Direction::DownRight => (1, -1),
            Direction::Down => (0, -1),
            Direction::DownLeft => (-1, -1),
            Direction::Left => (-1, 0),
            Direction::UpLeft => (-1, 1),
        }
    }

    /// The square one step from `loc` in this direction. Fails with `MathError`
    /// exactly when that step would leave the board; it never wraps or clamps.
    pub fn modify(&self, loc: Coord) -> (r: Result<Coord, ThudError>)
        ensures
            on_board(self.step(loc@)) ==> r is Ok && r->Ok_0@ == self.step(loc@),
            !on_board(self.step(loc@)) ==> r == Err::<Coord, ThudError>(ThudError::MathError),
    {
        let modifier = self.modifier();
        let (x, y) = loc.value();

        if (x == 0 && modifier.0 == -1) || (y == 0 && modifier.1 == -1) {
            return Err(ThudError::MathError);
        }
        let new_x: usize = if modifier.0 == 1 {
            x + 1
        } else if modifier.0 == -1 {
            x - 1
        } else {
            x
        };
        let new_y: usize = if modifier.1 == 1 {
            y + 1
        } else if modifier.1 == -1 {
            y - 1
        } else {
            y
        };
        match Coord::zero_based(new_x, new_y) {
            Ok(coord) => Ok(coord),
            Err(_) => Err(ThudError::MathError),
        }
    }

    /// The opposite direction.
    pub fn opposite(&self) -> (r: Direction)
        ensures
            r == self.reversed(),
            r.delta() == (-self.delta().0, -self.delta().1),
            r.reversed() == *self,
    {
        match self {
            Direction::Up => Direction::Down,
            Direction::UpRight => Direction::DownLeft,
            Direction::Right => Direction::Left,
            Direction::DownRight => Direction::UpLeft,
            Direction::Down => Direction::Up,
            Direction::DownLeft => Direction::UpRight,
            Direction::Left => Direction::Right,
            Direction::UpLeft => Direction::DownRight,
        }
    }

    /// The opposite of the opposite is the direction itself, and the opposite
    /// undoes each step.
    pub proof fn lemma_opposite_involutive(d: Direction)
        ensures
            d.reversed().reversed() == d,
            d.reversed().delta() == (-d.delta().0, -d.delta().1),
            d.reversed() != d,
    {
    }

    /// The board is convex along each of the eight directions: between two of
    /// its squares on one line, every point of the line is a square of it.
    pub proof fn lemma_between_on_board(d: Direction, a: (int, int), n: int, k: int)
        requires
            on_board(a),
            on_board(d.offset(a, n)),
            0 <= k <= n,
        ensures
            on_board(d.offset(a, k)),
    {
    }

    /// A point that lies `k` steps away in direction `d` is on one line with the
    /// origin, at distance `k`; the route to it is `d`, and the route back is the
    /// opposite of `d`.
    pub proof fn lemma_route_of_offset(d: Direction, a: (int, int), k: int)
        requires
            k >= 1,
        ensures
            aligned(a, d.offset(a, k)),
            chebyshev(a, d.offset(a, k)) == k,
            Direction::route(a, d.offset(a, k)) == Ok::<Direction, ThudError>(d),
            Direction::route(d.offset(a, k), a) == Ok::<Direction, ThudError>(d.reversed()),
    {
    }

    /// The route between two points on one line leads from the first to the
    /// second in as many steps as their distance, and the route back is its
    /// opposite.
    pub proof fn lemma_offset_of_route(a: (int, int), b: (int, int))
        requires
            aligned(a, b),
        ensures
            Direction::route(a, b) is Ok,
            Direction::route(a, b)->Ok_0.offset(a, chebyshev(a, b)) == b,
            Direction::route(b, a) == Ok::<Direction, ThudError>(
                Direction::route(a, b)->Ok_0.reversed(),
            ),
            chebyshev(a, b) >= 1,
    {
    }

    /// Walking step by step follows the line: where the point `n` steps away is
    /// on the board, `n` checked steps reach it.
    pub proof fn lemma_walk_reaches(d: Direction, a: (int, int), n: nat)
        requires
            on_board(a),
            on_board(d.offset(a, n as int)),
        ensures
            d.walk(a, n) == Some(d.offset(a, n as int)),
        decreases n,
    {
        if n > 0 {
            Direction::lemma_between_on_board(d, a, n as int, 1);
            assert(d.offset(a, 1) == d.step(a));
            assert(d.offset(d.step(a), n - 1) == d.offset(a, n as int));
            Direction::lemma_walk_reaches(d, d.step(a), (n - 1) as nat);
        }
    }

    /// For two different squares on one line, the direction from the first to
    /// the second exists, and as many steps in it as the Chebyshev distance
    /// between them lead from the first to the second.
    pub proof fn lemma_route_round_trip(a: Coord, b: Coord)
        requires
            a.wf(),
            b.wf(),
            aligned(a@, b@),
        ensures
            Direction::route(a@, b@) is Ok,
            chebyshev(a@, b@) >= 1,
            Direction::route(a@, b@)->Ok_0.walk(a@, chebyshev(a@, b@) as nat) == Some(b@),
    {
        let d = Direction::route(a@, b@)->Ok_0;
        let n = chebyshev(a@, b@);
        assert(d.offset(a@, n) == b@);
        Direction::lemma_walk_reaches(d, a@, n as nat);
    }
}

} // verus!
