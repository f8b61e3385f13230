//! Rules engine for the board game Thud: board geometry, move legality and
//! the turn state machine.

use vstd::prelude::*;

pub mod actions;
pub mod board;
pub mod census;
pub mod coord;
pub mod direction;
pub mod flat;
pub mod laws;
pub mod outlook;
pub mod piece;
pub mod raycast;
pub mod sight;
pub mod state;

pub use board::Board;
pub use coord::{Coord, Span};
pub use direction::Direction;
pub use piece::Piece;
pub use state::{GameState, Thud};

verus! {

/// One of the two Thud players.
#[derive(Debug, PartialEq, Eq, Structural, Copy, Clone)]
pub enum Player {
    Dwarf,
    Troll,
}

/// How a finished game ended.
#[derive(Debug, PartialEq, Eq, Structural, Copy, Clone)]
pub enum EndState {
    Won(Player),
    Draw,
}

/// Why a requested action was refused.
#[derive(Debug, PartialEq, Eq, Structural, Copy, Clone)]
pub enum ThudError {
    /// The pair does not name a square of the board.
    InvalidPosition(usize, usize),
    /// The move breaks a rule on piece kind, occupancy, adjacency or direction.
    IllegalMove,
    /// The piece on this square blocks the path.
    Obstacle(usize, usize),
    /// The move needs a supporting line of the first length; only the second is there.
    LineTooShort(usize, usize),
    /// The two squares share no line, or a step would leave the board.
    MathError,
    /// The action is not allowed in the current phase of the turn.
    BadAction,
}

} // verus!
