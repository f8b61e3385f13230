use thud::{Coord, Direction, Piece, ThudError};

fn square(x: usize, y: usize) -> Coord {
    Coord::zero_based(x, y).unwrap()
}

fn in_region(x: usize, y: usize) -> bool {
    x <= 14 && y <= 14 && x + y >= 5 && x + y <= 23 && 15 + y >= 6 + x && 15 + x >= 6 + y
}

#[test]
fn valid_coordinates() {
    for (x, y) in [(6, 9), (2, 3), (5, 0), (9, 0), (10, 2), (13, 5), (14, 6), (14, 8), (7, 7)] {
        assert_eq!(Coord::zero_based(x, y).expect("no").value(), (x, y));
    }
}

#[test]
fn invalid_coordinates() {
    for (x, y) in [(0, 0), (4, 0), (10, 0), (14, 4), (14, 10), (15, 7), (7, 15), (300, 2)] {
        assert_eq!(Coord::zero_based(x, y), Err(ThudError::InvalidPosition(x, y)));
    }
    assert_eq!(
        Coord::zero_based(usize::MAX, usize::MAX),
        Err(ThudError::InvalidPosition(usize::MAX, usize::MAX))
    );
}

#[test]
fn region_has_165_squares() {
    let mut count = 0;
    for x in 0..20 {
        for y in 0..20 {
            let made = Coord::zero_based(x, y);
            assert_eq!(made.is_ok(), in_region(x, y));
            if made.is_ok() {
                count += 1;
            }
        }
    }
    assert_eq!(count, 165);
}

#[test]
fn one_based_takes_one_off_each_axis() {
    assert_eq!(Coord::one_based(8, 8), Ok(square(7, 7)));
    assert_eq!(Coord::one_based(6, 1), Ok(square(5, 0)));
    assert_eq!(Coord::one_based(15, 8).unwrap().value(), (14, 7));
    assert_eq!(Coord::one_based(1, 1), Err(ThudError::InvalidPosition(1, 1)));
    assert_eq!(Coord::one_based(0, 8), Err(ThudError::InvalidPosition(0, 8)));
    assert_eq!(Coord::one_based(8, 0), Err(ThudError::InvalidPosition(8, 0)));
    assert_eq!(Coord::one_based(16, 8), Err(ThudError::InvalidPosition(16, 8)));
}

#[test]
fn max_is_the_larger_axis() {
    assert_eq!(square(3, 9).max(), 9);
    assert_eq!(square(12, 4).max(), 12);
    assert_eq!(square(7, 7).max(), 7);
}

#[test]
fn diff_then_max() {
    let cases = [
        ((7, 7), (8, 8), 1),
        ((8, 8), (7, 7), 1),
        ((7, 8), (8, 8), 1),
        ((7, 7), (9, 8), 2),
        ((7, 7), (10, 7), 3),
        ((8, 7), (9, 7), 1),
        ((7, 7), (7, 7), 0),
        ((0, 7), (14, 7), 14),
    ];
    for (lhs, rhs, expected) in cases {
        assert_eq!(square(lhs.0, lhs.1).diff(square(rhs.0, rhs.1)).max(), expected);
    }
}

#[test]
fn diff_is_absolute() {
    let source = square(7, 7);
    assert_eq!(source.diff(square(10, 10)).value(), (3, 3));
    assert_eq!(source.diff(square(12, 7)).value(), (5, 0));
    assert_eq!(square(12, 7).diff(source).value(), (5, 0));
    assert_eq!(square(2, 9).diff(square(9, 2)).value(), (7, 7));
}

#[test]
fn from_route() {
    assert_eq!(Direction::from_route(square(7, 7), square(8, 8)), Ok(Direction::UpRight));
    assert_eq!(Direction::from_route(square(8, 7), square(0, 7)), Ok(Direction::Left));
    assert_eq!(Direction::from_route(square(4, 9), square(6, 7)), Ok(Direction::DownRight));
    assert_eq!(Direction::from_route(square(7, 7), square(7, 12)), Ok(Direction::Up));
    assert_eq!(Direction::from_route(square(7, 7), square(7, 1)), Ok(Direction::Down));
    assert_eq!(Direction::from_route(square(7, 7), square(9, 7)), Ok(Direction::Right));
    assert_eq!(Direction::from_route(square(7, 7), square(4, 4)), Ok(Direction::DownLeft));
    assert_eq!(Direction::from_route(square(7, 7), square(5, 9)), Ok(Direction::UpLeft));
}

#[test]
fn from_route_refused() {
    assert_eq!(Direction::from_route(square(7, 7), square(7, 7)), Err(ThudError::MathError));
    assert_eq!(Direction::from_route(square(7, 7), square(8, 9)), Err(ThudError::MathError));
    assert_eq!(Direction::from_route(square(0, 5), square(14, 6)), Err(ThudError::MathError));
}

#[test]
fn modify() {
    assert_eq!(Direction::UpLeft.modify(square(10, 10)).expect("").value(), (9, 11));
    assert_eq!(Direction::Down.modify(square(7, 3)).expect("").value(), (7, 2));
    assert_eq!(Direction::Down.modify(square(7, 0)), Err(ThudError::MathError));
    assert_eq!(Direction::UpRight.modify(square(14, 7)), Err(ThudError::MathError));
    assert_eq!(Direction::Left.modify(square(0, 7)), Err(ThudError::MathError));
    assert_eq!(Direction::Left.modify(square(5, 0)), Err(ThudError::MathError));
    assert_eq!(Direction::Right.modify(square(5, 0)), Ok(square(6, 0)));
}

#[test]
fn modifier() {
    assert_eq!(Direction::Up.modifier(), (0, 1));
    assert_eq!(Direction::UpRight.modifier(), (1, 1));
    assert_eq!(Direction::Right.modifier(), (1, 0));
    assert_eq!(Direction::DownRight.modifier(), (1, -1));
    assert_eq!(Direction::Down.modifier(), (0, -1));
    assert_eq!(Direction::DownLeft.modifier(), (-1, -1));
    assert_eq!(Direction::Left.modifier(), (-1, 0));
    assert_eq!(Direction::UpLeft.modifier(), (-1, 1));
}

#[test]
fn opposite_turns_back() {
    assert_eq!(Direction::Up.opposite(), Direction::Down);
    for dir in Direction::all() {
        let back = dir.opposite();
        assert_ne!(back, dir);
        assert_eq!(back.opposite(), dir);
        let (dx, dy) = dir.modifier();
        assert_eq!(back.modifier(), (-dx, -dy));
    }
}

#[test]
fn all_directions_in_order() {
    assert_eq!(
        Direction::all(),
        vec![
            Direction::Up,
            Direction::UpRight,
            Direction::Right,
            Direction::DownRight,
            Direction::Down,
            Direction::DownLeft,
            Direction::Left,
            Direction::UpLeft,
        ]
    );
}

#[test]
fn from_num_counts_clockwise_from_right() {
    let expected = [
        Direction::Right,
        Direction::DownRight,
        Direction::Down,
        Direction::DownLeft,
        Direction::Left,
        Direction::UpLeft,
        Direction::Up,
        Direction::UpRight,
    ];
    for (num, dir) in expected.iter().enumerate() {
        assert_eq!(Direction::from_num(num), Ok(*dir));
    }
    assert_eq!(Direction::from_num(8), Err(ThudError::MathError));
    assert_eq!(Direction::from_num(usize::MAX), Err(ThudError::MathError));
}

#[test]
fn route_then_steps_reaches_the_target() {
    let mut squares = Vec::new();
    for x in 0..15 {
        for y in 0..15 {
            if let Ok(c) = Coord::zero_based(x, y) {
                squares.push(c);
            }
        }
    }
    let mut routes = 0;
    for a in &squares {
        for b in &squares {
            if let Ok(dir) = Direction::from_route(*a, *b) {
                let mut here = *a;
                for _ in 0..a.diff(*b).max() {
                    here = dir.modify(here).unwrap();
                }
                assert_eq!(here, *b);
                routes += 1;
            }
        }
    }
    assert!(routes > 0);
}

#[test]
fn piece_numbers() {
    assert_eq!(Piece::Empty.into_int(), 0);
    assert_eq!(Piece::Dwarf.into_int(), 1);
    assert_eq!(Piece::Troll.into_int(), 2);
    assert_eq!(Piece::Thudstone.into_int(), 3);
    assert_eq!(Piece::default(), Piece::Empty);
}
