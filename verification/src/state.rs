use vstd::prelude::*;
use crate::actions::relocated;
use crate::board::{is_grid, Board};
use crate::coord::Coord;
use crate::direction::Direction;
use crate::piece::Piece;
use crate::{EndState, Player, ThudError};

verus! {

/// The phase of a game: who is to act, and what the next action may be.
#[derive(Debug, PartialEq, Eq, Structural, Copy, Clone)]
pub enum GameState {
    /// The player is to open a turn with a move or an attack.
    Nominal(Player),
    /// A troll has moved, or shoved if the flag is set, and is to capture:
    /// at least one dwarf after a shove, any number after a move.
    PostTrollMove(bool),
    /// The game is over.
    GameEnded(EndState),
}

/// A game of Thud: the board and the phase of play.
#[derive(Debug, Copy, Clone)]
pub struct Thud {
    board: Board,
    state: GameState,
}

impl Thud {
    /// The board as it stands.
    pub closed spec fn position(self) -> Board {
        self.board
    }

    /// The phase of play.
    pub closed spec fn phase(self) -> GameState {
        self.state
    }

    /// Two games with the same board in the same phase are the same game.
    pub proof fn lemma_same_game(a: Thud, b: Thud)
        requires
            a.position() == b.position(),
            a.phase() == b.phase(),
        ensures
            a == b,
    {
    }

    /// Whose turn it is in phase `phase`: nobody's once the game is over.
    pub open spec fn to_act(phase: GameState) -> Option<Player> {
        match phase {
            GameState::Nominal(p) => Some(p),
            GameState::PostTrollMove(_) => Some(Player::Troll),
            GameState::GameEnded(_) => None,
        }
    }

    /// What `move_piece` answers: the dwarf's move on a dwarf turn, the troll's
    /// step on a troll turn, `BadAction` in every other phase.
    pub open spec fn move_result(self, src: (int, int), dst: (int, int)) -> Result<(), ThudError> {
        match self.phase() {
            GameState::Nominal(Player::Dwarf) => self.position().dwarf_move_outcome(src, dst),
            GameState::Nominal(Player::Troll) => if self.position().troll_may_step(src, dst) {
                Ok(())
            } else {
                Err(ThudError::IllegalMove)
            },
            _ => Err(ThudError::BadAction),
        }
    }

    /// What `attack` answers: the hurl on a dwarf turn, the shove on a troll
    /// turn, `BadAction` in every other phase.
    pub open spec fn attack_result(self, src: (int, int), dst: (int, int)) -> Result<
        (),
        ThudError,
    > {
        match self.phase() {
            GameState::Nominal(Player::Dwarf) => self.position().hurl_outcome(src, dst),
            GameState::Nominal(Player::Troll) => self.position().shove_outcome(src, dst),
            _ => Err(ThudError::BadAction),
        }
    }

    /// What `troll_cap` answers: `BadAction` unless a troll has just moved or
    /// shoved; `IllegalMove` if no troll stands on `troll`, or if nothing is
    /// taken after a shove; else `Ok`.
    pub open spec fn capture_result(self, troll: (int, int), targets: Seq<Direction>) -> Result<
        (),
        ThudError,
    > {
        match self.phase() {
            GameState::PostTrollMove(shoved) => {
                if self.position().at(troll) != Piece::Troll {
                    Err(ThudError::IllegalMove)
                } else if shoved && self.position().capture_count(troll, targets) == 0 {
                    Err(ThudError::IllegalMove)
                } else {
                    Ok(())
                }
            },
            _ => Err(ThudError::BadAction),
        }
    }

    /// A game ready to be played: the pieces in their opening places, the
    /// dwarves to move.
    pub fn new() -> (r: Thud)
        ensures
            r.phase() == GameState::Nominal(Player::Dwarf),
            is_grid(r.position()@),
            r.position().is_opening(),
            r.position().tally_score() == (32nat, 32nat),
            r.position().squares_holding(Piece::Thudstone) == seq![(7int, 7int)],
    {
        let board = Board::fresh();
        proof {
            board.lemma_opening_census();
        }
        Thud { board, state: GameState::Nominal(Player::Dwarf) }
    }

    /// A game that stands at `board` in phase `state`.
    pub fn with_state(board: Board, state: GameState) -> (r: Thud)
        ensures
            r.position() == board,
            r.phase() == state,
    {
        Thud { board, state }
    }

    /// The board as it stands.
    pub fn board(&self) -> (r: Board)
        ensures
            r == self.position(),
    {
        self.board
    }

    /// The phase of play.
    pub fn state(&self) -> (r: GameState)
        ensures
            r == self.phase(),
    {
        self.state
    }

    /// Whose turn it is, or `None` once the game is over.
    pub fn turn(&self) -> (r: Option<Player>)
        ensures
            r == Thud::to_act(self.phase()),
    {
        match self.state {
            GameState::Nominal(p) => Some(p),
            GameState::PostTrollMove(_) => Some(Player::Troll),
            GameState::GameEnded(_) => None,
        }
    }

    /// Whether the game is over, and how it ended. Once the game is over the
    /// answer is the one that was given first: the board is not read again. The
    /// first answer that finds the game over ends it. The board never changes.
    pub fn winner(&mut self) -> (r: Option<EndState>)
        ensures
            final(self).position() == old(self).position(),
            old(self).phase() is GameEnded ==> r == Some(old(self).phase()->GameEnded_0)
                && final(self).phase() == old(self).phase(),
            !(old(self).phase() is GameEnded) ==> r == old(self).position().outcome(),
            !(old(self).phase() is GameEnded) && r is Some ==> final(self).phase()
                == GameState::GameEnded(r->Some_0),
            r is None ==> final(self).phase() == old(self).phase(),
    {
        match self.state {
            GameState::GameEnded(p) => Some(p),
            _ => match self.board.winner() {
                Some(p) => {
                    self.state = GameState::GameEnded(p);
                    Some(p)
                },
                None => None,
            },
        }
    }

    /// The scores of the two players, the dwarves' first.
    pub fn score(&self) -> (r: (usize, usize))
        ensures
            (r.0 as nat, r.1 as nat) == self.position().tally_score(),
    {
        self.board.score()
    }

    /// Moves a piece of the player whose turn it is. After a dwarf's move the
    /// trolls are to play; after a troll's move the troll is to capture, and may
    /// take nothing. In any other phase the answer is `BadAction`. A move that
    /// fails changes neither the board nor the phase.
    pub fn move_piece(&mut self, src: Coord, target: Coord) -> (r: Result<(), ThudError>)
        ensures
            r == old(self).move_result(src@, target@),
            r is Err ==> *final(self) == *old(self),
            final(self).position().squares_holding(Piece::Thudstone) == old(
                self,
            ).position().squares_holding(Piece::Thudstone),
            r is Ok ==> final(self).position()@ == relocated(
                old(self).position()@,
                src@,
                target@,
                if old(self).phase() == GameState::Nominal(Player::Dwarf) {
                    Piece::Dwarf
                } else {
                    Piece::Troll
                },
            ),
            r is Ok ==> final(self).phase() == (if old(self).phase() == GameState::Nominal(
                Player::Dwarf,
            ) {
                GameState::Nominal(Player::Troll)
            } else {
                GameState::PostTrollMove(false)
            }),
    {
        let ghost before = self.board;
        let answer = match self.state {
            GameState::Nominal(Player::Dwarf) => {
                match self.board.dwarf_move(src, target) {
                    Ok(_) => {
                        self.state = GameState::Nominal(Player::Troll);
                        Ok(())
                    },
                    Err(e) => Err(e),
                }
            },
            GameState::Nominal(Player::Troll) => {
                match self.board.troll_move(src, target) {
                    Ok(_) => {
                        self.state = GameState::PostTrollMove(false);
                        Ok(())
                    },
                    Err(e) => Err(e),
                }
            },
            _ => Err(ThudError::BadAction),
        };
        proof {
            before.lemma_stones_stay(self.board);
        }
        answer
    }

    /// Attacks with a piece of the player whose turn it is: a dwarf is hurled,
    /// a troll is shoved. After a hurl the trolls are to play; after a shove the
    /// troll is to capture, and must take at least one dwarf. In any other phase
    /// the answer is `BadAction`. An attack that fails changes neither the board
    /// nor the phase.
    pub fn attack(&mut self, src: Coord, target: Coord) -> (r: Result<(), ThudError>)
        ensures
            r == old(self).attack_result(src@, target@),
            r is Err ==> *final(self) == *old(self),
            final(self).position().squares_holding(Piece::Thudstone) == old(
                self,
            ).position().squares_holding(Piece::Thudstone),
            r is Ok ==> final(self).position()@ == relocated(
                old(self).position()@,
                src@,
                target@,
                if old(self).phase() == GameState::Nominal(Player::Dwarf) {
                    Piece::Dwarf
                } else {
                    Piece::Troll
                },
            ),
            r is Ok ==> final(self).phase() == (if old(self).phase() == GameState::Nominal(
                Player::Dwarf,
            ) {
                GameState::Nominal(Player::Troll)
            } else {
                GameState::PostTrollMove(true)
            }),
    {
        let ghost before = self.board;
        let answer = match self.state {
            GameState::Nominal(Player::Dwarf) => {
                match self.board.dwarf_hurl(src, target) {
                    Ok(_) => {
                        self.state = GameState::Nominal(Player::Troll);
                        Ok(())
                    },
                    Err(e) => Err(e),
                }
            },
            GameState::Nominal(Player::Troll) => {
                match self.board.troll_shove(src, target) {
                    Ok(_) => {
                        self.state = GameState::PostTrollMove(true);
                        Ok(())
                    },
                    Err(e) => Err(e),
                }
            },
            _ => Err(ThudError::BadAction),
        };
        proof {
            before.lemma_stones_stay(self.board);
        }
        answer
    }

    /// Captures dwarves with the troll that has just moved or shoved, and hands
    /// the turn to the dwarves. After a shove at least one dwarf must be taken:
    /// if none is, the answer is `IllegalMove`, and the capture is still owed.
    /// In any other phase the answer is `BadAction`. A capture that fails changes
    /// neither the board nor the phase.
    pub fn troll_cap(&mut self, troll: Coord, targets: Vec<Direction>) -> (r: Result<
        (),
        ThudError,
    >)
        ensures
            r == old(self).capture_result(troll@, targets@),
            r is Err ==> *final(self) == *old(self),
            final(self).position().squares_holding(Piece::Thudstone) == old(
                self,
            ).position().squares_holding(Piece::Thudstone),
            r is Ok ==> final(self).position()@ == old(self).position().after_capture(
                troll@,
                targets@,
            ) && final(self).phase() == GameState::Nominal(Player::Dwarf),
    {
        let ghost before = self.board;
        let answer = match self.state {
            GameState::PostTrollMove(true) => {
                match self.board.troll_capture(troll, targets) {
                    Ok(captured) => {
                        if captured == 0 {
                            Err(ThudError::IllegalMove)
                        } else {
                            self.state = GameState::Nominal(Player::Dwarf);
                            Ok(())
                        }
                    },
                    Err(e) => Err(e),
                }
            },
            GameState::PostTrollMove(false) => {
                match self.board.troll_capture(troll, targets) {
                    Ok(_) => {
                        self.state = GameState::Nominal(Player::Dwarf);
                        Ok(())
                    },
                    Err(e) => Err(e),
                }
            },
            _ => Err(ThudError::BadAction),
        };
        proof {
            before.lemma_stones_stay(self.board);
        }
        answer
    }
}

} // verus!
