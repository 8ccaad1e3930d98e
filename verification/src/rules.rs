use crate::board::{
    after_clear, board_ok, empty_board, fits, full_rows, locked, no_full_row, BOARD_H, BOARD_W,
};
use crate::piece::{Cell, Piece, Tetromino};
use vstd::prelude::*;

verus! {

/// What a step of gravity did.
#[derive(Debug, Copy, Clone, PartialEq, Eq, Structural)]
pub enum Step {
    /// The piece moved down by one row.
    Moved,
    /// The piece was locked, `cleared` rows were cleared and the next piece
    /// entered; `game_over` tells whether it found its place taken.
    Locked { cleared: u32, game_over: bool },
    /// The game had ended before; nothing changed.
    GameOver,
}

impl Step {
    /// How many rows the step has cleared: those that a lock reports, and
    /// none otherwise.
    pub open spec fn rows(self) -> int {
        match self {
            Step::Locked { cleared, .. } => cleared as int,
            _ => 0,
        }
    }
}

/// The sideways shifts that a rotation tries, in this order.
pub const KICKS: [i32; 5] = [0, -1, 1, -2, 2];

/// Points for clearing `cleared` rows with one piece, before the level
/// multiplies them.
pub open spec fn line_points(cleared: int) -> int {
    if cleared == 1 {
        40
    } else if cleared == 2 {
        100
    } else if cleared == 3 {
        300
    } else if cleared == 4 {
        1200
    } else {
        0
    }
}

/// The level reached with `lines` cleared rows: one more every ten rows.
pub open spec fn level_of(lines: int) -> int {
    lines / 10 + 1
}

/// A total as a counter holds it: a total beyond the largest value that the
/// counter can hold counts as that value.
pub open spec fn capped(total: int) -> u32 {
    if total > u32::MAX {
        u32::MAX
    } else {
        total as u32
    }
}

/// By how many rows a piece falls when it falls straight down from where it
/// is: it moves down for as long as the place below it is free. A piece whose
/// frame starts in the bottom row has no place below.
pub open spec fn drop_rows(b: Seq<Cell>, p: Piece) -> nat
    decreases BOARD_H - p.y,
{
    if p.y < BOARD_H - 1 && fits(b, p.shifted(0, 1)) {
        1 + drop_rows(b, p.shifted(0, 1))
    } else {
        0
    }
}

/// The piece at the place where it comes to rest when it falls straight down.
pub open spec fn landing(b: Seq<Cell>, p: Piece) -> Piece {
    p.shifted(0, drop_rows(b, p) as int)
}

/// The first of the shifts `KICKS[from..]` with which the piece fits.
pub open spec fn first_kick(b: Seq<Cell>, p: Piece, from: int) -> Option<Piece>
    decreases 5 - from,
{
    if from < 0 || from >= 5 {
        None
    } else if fits(b, p.shifted(KICKS[from] as int, 0)) {
        Some(p.shifted(KICKS[from] as int, 0))
    } else {
        first_kick(b, p, from + 1)
    }
}

/// What a game is, apart from the state of its random generator.
pub struct GameView {
    /// The cells of the board, row by row from the top.
    pub board: Seq<Cell>,
    /// The piece that falls.
    pub current: Piece,
    /// The kind of the piece that waits to enter.
    pub next: Tetromino,
    /// The score.
    pub score: u32,
    /// How many rows have been cleared.
    pub lines: u32,
    /// Whether the game has ended.
    pub game_over: bool,
}

impl GameView {
    /// The state invariant: the board has its size, holds ids only and has
    /// no full row, the frame of the current piece reaches the board, and
    /// while the game goes on the current piece fits.
    pub open spec fn wf(self) -> bool {
        &&& board_ok(self.board)
        &&& no_full_row(self.board)
        &&& self.current.rot < 4
        &&& -3 <= self.current.x < BOARD_W
        &&& self.current.y < BOARD_H
        &&& (!self.game_over ==> fits(self.board, self.current))
    }

    /// A game at its start: the board is empty, the counters are zero, a piece
    /// of kind `first` has entered and one of kind `second` waits.
    pub open spec fn fresh(first: Tetromino, second: Tetromino) -> GameView {
        GameView {
            board: empty_board(),
            current: Piece::spawn(first),
            next: second,
            score: 0,
            lines: 0,
            game_over: false,
        }
    }

    /// The game with another current piece.
    pub open spec fn with_current(self, p: Piece) -> GameView {
        GameView { current: p, ..self }
    }

    /// The game after an attempt to move the current piece by (dx, dy): the
    /// piece moves if it fits there and stays otherwise.
    pub open spec fn stepped(self, dx: int, dy: int) -> GameView {
        if fits(self.board, self.current.shifted(dx, dy)) {
            self.with_current(self.current.shifted(dx, dy))
        } else {
            self
        }
    }

    /// The game after an attempt to rotate the current piece: the piece takes
    /// its next rotation state with the first shift of `KICKS` that fits, and
    /// stays as it is if none does.
    pub open spec fn rotated(self) -> GameView {
        match first_kick(self.board, self.current.turned(), 0) {
            Some(p) => self.with_current(p),
            None => self,
        }
    }

    /// The game after the waiting piece has entered and `upcoming` has taken
    /// its place in the queue. The game ends if the piece does not fit.
    pub open spec fn spawned(self, upcoming: Tetromino) -> GameView {
        GameView {
            current: Piece::spawn(self.next),
            next: upcoming,
            game_over: self.game_over || !fits(self.board, Piece::spawn(self.next)),
            ..self
        }
    }

    /// How many rows are full once the current piece is locked where it is.
    pub open spec fn rows_completed(self) -> nat {
        full_rows(locked(self.board, self.current), BOARD_H as int)
    }

    /// The game after the current piece has been locked where it is: its
    /// cells are on the board, the full rows are cleared and counted, the
    /// score has grown by the points for these rows times the level that the
    /// new count of rows gives, and the waiting piece has entered.
    pub open spec fn settled(self, upcoming: Tetromino) -> GameView {
        let lines = capped(self.lines + self.rows_completed());
        GameView {
            board: after_clear(locked(self.board, self.current)),
            score: capped(
                self.score + line_points(self.rows_completed() as int) * level_of(lines as int),
            ),
            lines,
            ..self
        }.spawned(upcoming)
    }

    /// The game after one step of gravity.
    pub open spec fn ticked(self, upcoming: Tetromino) -> GameView {
        if self.game_over {
            self
        } else if fits(self.board, self.current.shifted(0, 1)) {
            self.with_current(self.current.shifted(0, 1))
        } else {
            self.settled(upcoming)
        }
    }

    /// What one step of gravity reports.
    pub open spec fn tick_report(self) -> Step {
        if self.game_over {
            Step::GameOver
        } else if fits(self.board, self.current.shifted(0, 1)) {
            Step::Moved
        } else {
            self.lock_report()
        }
    }

    /// What locking the current piece where it is reports: the rows that it
    /// completes, and whether the waiting piece then finds its place taken,
    /// which does not depend on the piece that is drawn after it.
    pub open spec fn lock_report(self) -> Step {
        Step::Locked {
            cleared: self.rows_completed() as u32,
            game_over: self.settled(self.next).game_over,
        }
    }

    /// The game after the current piece has been dropped to rest and locked.
    pub open spec fn hard_dropped(self, upcoming: Tetromino) -> GameView {
        if self.game_over {
            self
        } else {
            self.with_current(landing(self.board, self.current)).settled(upcoming)
        }
    }

    /// What dropping the current piece reports.
    pub open spec fn drop_report(self) -> Step {
        if self.game_over {
            Step::GameOver
        } else {
            self.with_current(landing(self.board, self.current)).lock_report()
        }
    }
}

} // verus!
