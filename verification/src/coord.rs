use vstd::prelude::*;
use crate::ThudError;

verus! {

/// Whether `(x, y)` is one of the 165 squares of the octagonal board: a
/// 15 by 15 square with its four corners cut off.
pub open spec fn on_board(p: (int, int)) -> bool {
    &&& 0 <= p.0 <= 14
    &&& 0 <= p.1 <= 14
    &&& 5 <= p.0 + p.1 <= 23
    &&& 15 - p.0 + p.1 >= 6
    &&& 15 + p.0 - p.1 >= 6
}

/// The absolute value of `a`.
pub open spec fn abs(a: int) -> int {
    if a < 0 { -a } else { a }
}

/// The Chebyshev distance between two points: the larger of the two axis distances.
pub open spec fn chebyshev(a: (int, int), b: (int, int)) -> int {
    if abs(a.0 - b.0) > abs(a.1 - b.1) { abs(a.0 - b.0) } else { abs(a.1 - b.1) }
}

/// The squares that a sequence of coordinates names, in the same order.
pub open spec fn points(s: Seq<Coord>) -> Seq<(int, int)> {
    s.map_values(|c: Coord| c@)
}

/// A checked address of one square of the board.
#[derive(Debug, PartialEq, Eq, Structural, Copy, Clone)]
pub struct Coord {
    x: usize,
    y: usize,
}

/// The absolute difference of two coordinates, axis by axis.
#[derive(Debug, PartialEq, Eq, Structural, Copy, Clone)]
pub struct Span {
    x: usize,
    y: usize,
}

impl View for Coord {
    type V = (int, int);

    closed spec fn view(&self) -> (int, int) {
        (self.x as int, self.y as int)
    }
}

impl View for Span {
    type V = (int, int);

    closed spec fn view(&self) -> (int, int) {
        (self.x as int, self.y as int)
    }
}

impl Coord {
    /// Every coordinate names a square of the board.
    #[verifier::type_invariant]
    pub open spec fn wf(self) -> bool {
        on_board(self@)
    }

    fn check_coords(x: usize, y: usize) -> (r: Result<(), ThudError>)
        ensures
            on_board((x as int, y as int)) ==> r == Ok::<(), ThudError>(()),
            !on_board((x as int, y as int)) ==> r == Err::<(), ThudError>(
                ThudError::InvalidPosition(x, y),
            ),
    {
        if x > 14 || y > 14 {
            return Err(ThudError::InvalidPosition(x, y));
        }
        let sum: usize = x + y;
        let invalid = sum < 5 || sum > 23 || 15 - x + y < 6 || 15 + x - y < 6;
        if invalid {
            Err(ThudError::InvalidPosition(x, y))
        } else {
            Ok(())
        }
    }

    /// Makes a coordinate from zero-based axis values, the bottom-left corner of
    /// the enclosing square being `(0, 0)`. Fails with `InvalidPosition(x, y)`
    /// exactly when `(x, y)` is not a square of the board.
    pub fn zero_based(x: usize, y: usize) -> (r: Result<Coord, ThudError>)
        ensures
            on_board((x as int, y as int)) ==> r is Ok && r->Ok_0@ == (x as int, y as int),
            !on_board((x as int, y as int)) ==> r == Err::<Coord, ThudError>(
                ThudError::InvalidPosition(x, y),
            ),
    {
        match Coord::check_coords(x, y) {
            Ok(_) => Ok(Coord { x, y }),
            Err(e) => Err(e),
        }
    }

    /// Makes a coordinate from one-based axis values: one is taken off each axis
    /// and the rest is as in `zero_based`. An axis value of zero names no square;
    /// the error carries the pair as it was given.
    pub fn one_based(x: usize, y: usize) -> (r: Result<Coord, ThudError>)
        ensures
            on_board((x - 1, y - 1)) ==> r is Ok && r->Ok_0@ == (x - 1, y - 1),
            !on_board((x - 1, y - 1)) ==> r == Err::<Coord, ThudError>(
                ThudError::InvalidPosition(x, y),
            ),
    {
        if x == 0 || y == 0 {
            return Err(ThudError::InvalidPosition(x, y));
        }
        match Coord::check_coords(x - 1, y - 1) {
            Ok(_) => Ok(Coord { x: x - 1, y: y - 1 }),
            Err(_) => Err(ThudError::InvalidPosition(x, y)),
        }
    }

    /// The values inside the coordinate, zero-based: always a square of the board.
    pub fn value(&self) -> (r: (usize, usize))
        ensures
            (r.0 as int, r.1 as int) == self@,
            on_board(self@),
    {
        proof {
            use_type_invariant(self);
        }
        (self.x, self.y)
    }
}

impl Coord {
    /// The larger of the two axis values.
    pub fn max(&self) -> (r: usize)
        ensures
            r as int == if self@.0 > self@.1 { self@.0 } else { self@.1 },
    {
        if self.x > self.y {
            self.x
        } else {
            self.y
        }
    }

    /// The absolute difference between two coordinates, axis by axis. Its larger
    /// axis is the Chebyshev distance between the two squares.
    pub fn diff(self, rhs: Coord) -> (r: Span)
        ensures
            r@ == (abs(self@.0 - rhs@.0), abs(self@.1 - rhs@.1)),
            r.spec_max() == chebyshev(self@, rhs@),
    {
        let new_x = if self.x > rhs.x { self.x - rhs.x } else { rhs.x - self.x };
        let new_y = if self.y > rhs.y { self.y - rhs.y } else { rhs.y - self.y };
        Span { x: new_x, y: new_y }
    }

    /// Two coordinates that name the same square are the same coordinate.
    pub proof fn lemma_same_square(a: Coord, b: Coord)
        requires
            a@ == b@,
        ensures
            a == b,
    {
    }
}

impl Span {
    /// The larger of the two axis distances, as a number.
    pub open spec fn spec_max(self) -> int {
        if self@.0 > self@.1 { self@.0 } else { self@.1 }
    }

    /// The two axis distances.
    pub fn value(&self) -> (r: (usize, usize))
        ensures
            (r.0 as int, r.1 as int) == self@,
    {
        (self.x, self.y)
    }

    /// The larger of the two axis distances.
    pub fn max(&self) -> (r: usize)
        ensures
            r as int == self.spec_max(),
    {
        if self.x > self.y {
            self.x
        } else {
            self.y
        }
    }
}

} // verus!
