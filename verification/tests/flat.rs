use thud::flat::{board_codes, directions_from_flags};
use thud::{Board, Coord, Direction, Piece};

#[test]
fn flags_name_directions_by_number() {
    assert_eq!(directions_from_flags(&[0; 8]), vec![]);
    assert_eq!(
        directions_from_flags(&[1, 0, 0, 1, 0, 0, 1, 0]),
        vec![Direction::Right, Direction::DownLeft, Direction::Up]
    );
    assert_eq!(
        directions_from_flags(&[1; 8]),
        vec![
            Direction::Right,
            Direction::DownRight,
            Direction::Down,
            Direction::DownLeft,
            Direction::Left,
            Direction::UpLeft,
            Direction::Up,
            Direction::UpRight,
        ]
    );
    // only the value 1 raises a flag
    assert_eq!(directions_from_flags(&[2, 0, 7, 0, 1, 0, 0, 9]), vec![Direction::Left]);
}

#[test]
fn board_as_numbers() {
    let codes = board_codes(&Board::fresh());
    assert_eq!(codes[7][7], 3);
    assert_eq!(codes[6][7], 2);
    assert_eq!(codes[0][5], 1);
    assert_eq!(codes[0][7], 0);
    assert_eq!(codes[0][0], 0);
    let mut dwarves = 0;
    let mut trolls = 0;
    for x in 0..15 {
        for y in 0..15 {
            if codes[x][y] == 1 {
                dwarves += 1;
            }
            if codes[x][y] == 2 {
                trolls += 1;
            }
        }
    }
    assert_eq!((dwarves, trolls), (32, 8));

    let mut board = Board::default();
    board.place(Coord::zero_based(3, 9).unwrap(), Piece::Troll);
    let codes = board_codes(&board);
    assert_eq!(codes[3][9], 2);
    assert_eq!(codes[9][3], 0);
}
