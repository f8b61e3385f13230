use vstd::prelude::*;
use crate::board::Board;
use crate::direction::Direction;

verus! {

/// The numbers from 0 to 7 at which `flags` holds a 1, in rising order.
pub open spec fn raised(flags: Seq<u32>) -> Seq<int> {
    Seq::new(8, |i: int| i).filter(|i: int| flags[i] == 1)
}

/// The directions that the raised flags stand for, in the order of their
/// numbers.
pub open spec fn flagged(flags: Seq<u32>) -> Seq<Direction> {
    raised(flags).map_values(|i: int| Direction::numbered(i)->Ok_0)
}

/// Reads eight flags, one for each direction by its number, and gives the
/// directions whose flag is 1. Any other value leaves the direction out.
pub fn directions_from_flags(flags: &[u32; 8]) -> (r: Vec<Direction>)
    ensures
        r@ == flagged(flags@),
{
    let mut dirs: Vec<Direction> = Vec::new();
    let ghost numbers = Seq::new(8, |i: int| i);
    let ghost up = |i: int| flags@[i] == 1;
    let ghost named = |i: int| Direction::numbered(i)->Ok_0;
    let mut i: usize = 0;
    proof {
        reveal(Seq::filter);
        assert(numbers.take(0).filter(up).map_values(named) =~= dirs@);
    }
    while i < 8
        invariant
            0 <= i <= 8,
            numbers == Seq::new(8, |i: int| i),
            up == |i: int| flags@[i] == 1,
            named == |i: int| Direction::numbered(i)->Ok_0,
            dirs@ == numbers.take(i as int).filter(up).map_values(named),
        decreases 8 - i,
    {
        proof {
            reveal(Seq::filter);
            assert(numbers.take(i + 1).drop_last() =~= numbers.take(i as int));
            assert(numbers.take(i + 1).last() == i);
        }
        if flags[i] == 1 {
            match Direction::from_num(i) {
                Ok(dir) => {
                    dirs.push(dir);
                    proof {
                        assert(numbers.take(i + 1).filter(up).map_values(named) =~= numbers.take(
                            i as int,
                        ).filter(up).map_values(named).push(named(i as int)));
                    }
                },
                Err(_) => {},
            }
        }
        i += 1;
    }
    proof {
        assert(numbers.take(8) =~= numbers);
    }
    dirs
}

/// The board as numbers: `r[x][y]` is the number of the piece on `(x, y)`.
pub fn board_codes(board: &Board) -> (r: [[u32; 15]; 15])
    ensures
        forall|x: int, y: int| 0 <= x < 15 && 0 <= y < 15 ==> r[x][y] as int == board@[x][y].code(),
{
    let raw = board.full_raw();
    let zero: u32 = 0;
    let row: [u32; 15] = vstd::array::array_fill_for_copy_types(zero);
    let mut result: [[u32; 15]; 15] = vstd::array::array_fill_for_copy_types(row);
    let mut x: usize = 0;
    while x < 15
        invariant
            0 <= x <= 15,
            forall|a: int, b: int| 0 <= a < 15 && 0 <= b < 15 ==> raw[a][b] == board@[a][b],
            forall|a: int, b: int|
                0 <= a < x && 0 <= b < 15 ==> result[a][b] as int == board@[a][b].code(),
        decreases 15 - x,
    {
        let mut y: usize = 0;
        while y < 15
            invariant
                0 <= x < 15,
                0 <= y <= 15,
                forall|a: int, b: int| 0 <= a < 15 && 0 <= b < 15 ==> raw[a][b] == board@[a][b],
                forall|a: int, b: int|
                    0 <= a < 15 && 0 <= b < 15 && (a < x || (a == x && b < y)) ==> result[a][b]
                        as int == board@[a][b].code(),
            decreases 15 - y,
        {
            result[x][y] = raw[x][y].into_int() as u32;
            y += 1;
        }
        x += 1;
    }
    result
}

} // verus!
