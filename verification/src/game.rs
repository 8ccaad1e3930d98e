use crate::board::{
    board_ok, cell_at, clear_lines, empty_board, fits, has_no_full_row, is_board, is_valid,
    lemma_board_stays, lemma_empty_board, lemma_lock_fills_four_rows, lemma_reach,
    lemma_spawn_on_empty, lock_piece, locked, no_full_row, wipe, BOARD_H, BOARD_W,
};
use crate::laws::{
    lemma_clear_leaves_no_full_row, lemma_counters_never_fall, lemma_landing_rests,
};
use crate::piece::{Cell, Piece, Tetromino};
use crate::random::{draw_below, entropy_seed, seeded_rng};
use crate::rules::{capped, first_kick, landing, level_of, line_points, GameView, Step, KICKS};
use rand::rngs::StdRng;
use vstd::prelude::*;

verus! {

/// A game: the board, the falling piece, the piece that waits, the counters
/// and the generator that the pieces are drawn from.
#[derive(Debug, Clone)]
pub struct Game {
    board: Vec<Cell>,
    current: Piece,
    next: Tetromino,
    rng: StdRng,
    score: u32,
    lines: u32,
    game_over: bool,
}

impl View for Game {
    type V = GameView;

    closed spec fn view(&self) -> GameView {
        GameView {
            board: self.board@,
            current: self.current,
            next: self.next,
            score: self.score,
            lines: self.lines,
            game_over: self.game_over,
        }
    }
}

impl Game {
    /// Whether the game is in order. Every game that this library hands out
    /// is, and every operation keeps it so.
    pub open spec fn wf(&self) -> bool {
        self@.wf()
    }

    /// The generator that the pieces are drawn from, in the state in which
    /// it is.
    pub closed spec fn source(&self) -> StdRng {
        self.rng
    }

    /// Starts a game: the board is empty, the counters are zero, one piece
    /// has entered, all of it on the board, and one waits. The pieces are
    /// drawn from a generator of the game's own, seeded with a number that
    /// the generator of the running thread hands out.
    pub fn new() -> (g: Game)
        ensures
            g.wf(),
            g@ == GameView::fresh(g@.current.kind, g@.next),
            forall|i: int|
                0 <= i < 4 ==> 0 <= (#[trigger] g@.current.cell(i)).0 < BOARD_W && 0
                    <= g@.current.cell(i).1 < BOARD_H,
    {
        let seed = entropy_seed();
        Game::with_seed(seed)
    }

    /// Starts a game as `new` does, with a generator seeded with `seed`.
    pub fn with_seed(seed: u64) -> (g: Game)
        ensures
            g.wf(),
            g@ == GameView::fresh(g@.current.kind, g@.next),
            forall|i: int|
                0 <= i < 4 ==> 0 <= (#[trigger] g@.current.cell(i)).0 < BOARD_W && 0
                    <= g@.current.cell(i).1 < BOARD_H,
    {
        let mut g = Game {
            board: vec![0; (BOARD_W * BOARD_H) as usize],
            current: Piece { kind: Tetromino::I, rot: 0, x: 3, y: 0 },
            next: Tetromino::I,
            rng: seeded_rng(seed),
            score: 0,
            lines: 0,
            game_over: false,
        };
        assert(g.board@ =~= empty_board());
        g.next = g.random_piece();
        g.spawn_new_piece();
        proof {
            lemma_empty_board();
            lemma_spawn_on_empty(g.current.kind);
        }
        g
    }

    /// Draws the kind of a piece.
    fn random_piece(&mut self) -> (kind: Tetromino)
        ensures
            final(self)@ == old(self)@,
    {
        let n = draw_below(&mut self.rng, 7);
        Tetromino::from_index(n)
    }

    /// Lets the waiting piece enter and puts `upcoming` in its place. If the
    /// piece does not fit, the game is over and the piece stays where it
    /// entered.
    fn spawn_piece(&mut self, upcoming: Tetromino)
        requires
            board_ok(old(self)@.board),
        ensures
            final(self)@ == old(self)@.spawned(upcoming),
            final(self).source() == old(self).source(),
    {
        let kind = self.next;
        self.next = upcoming;
        self.current = Piece { kind, rot: 0, x: 3, y: 0 };
        if !is_valid(&self.board, self.current) {
            self.game_over = true;
        }
    }

    /// Lets the waiting piece enter and draws the piece that waits next.
    fn spawn_new_piece(&mut self)
        requires
            board_ok(old(self)@.board),
        ensures
            final(self)@ == old(self)@.spawned(final(self)@.next),
    {
        let upcoming = self.random_piece();
        self.spawn_piece(upcoming);
    }

    /// Sets up a game in the middle of play: the given board, falling piece,
    /// waiting piece and counters, and a generator seeded with `seed`. There
    /// is such a game if the board has its size, holds ids only and has no
    /// full row, and the piece is in one of its four rotation states and
    /// fits.
    pub fn from_position(
        board: Vec<Cell>,
        current: Piece,
        next: Tetromino,
        score: u32,
        lines: u32,
        seed: u64,
    ) -> (made: Option<Game>)
        ensures
            made is Some <==> board_ok(board@) && no_full_row(board@) && current.rot < 4 && fits(
                board@,
                current,
            ),
            made matches Some(g) ==> g.wf() && g@ == (GameView {
                board: board@,
                current,
                next,
                score,
                lines,
                game_over: false,
            }),
    {
        if !is_board(&board) || current.rot >= 4 {
            return None;
        }
        if !has_no_full_row(&board) {
            return None;
        }
        if current.x < -3 || current.x >= BOARD_W || current.y >= BOARD_H {
            proof {
                if fits(board@, current) {
                    lemma_reach(current);
                }
            }
            return None;
        }
        if !is_valid(&board, current) {
            return None;
        }
        Some(Game { board, current, next, rng: seeded_rng(seed), score, lines, game_over: false })
    }

    /// Starts the game anew: the board is emptied, the counters go back to
    /// zero and two fresh pieces are drawn. The generator goes on from where
    /// it was.
    pub fn reset(&mut self)
        requires
            old(self).wf(),
        ensures
            final(self).wf(),
            final(self)@ == GameView::fresh(final(self)@.current.kind, final(self)@.next),
            forall|i: int|
                0 <= i < 4 ==> 0 <= (#[trigger] final(self)@.current.cell(i)).0 < BOARD_W && 0
                    <= final(self)@.current.cell(i).1 < BOARD_H,
    {
        wipe(&mut self.board);
        self.score = 0;
        self.lines = 0;
        self.game_over = false;
        self.next = self.random_piece();
        self.spawn_new_piece();
        proof {
            lemma_empty_board();
            lemma_spawn_on_empty(self.current.kind);
        }
    }

    /// The cells of the board, row by row from the top.
    pub fn board(&self) -> (cells: &[Cell])
        ensures
            cells@ == self@.board,
    {
        self.board.as_slice()
    }

    /// The falling piece.
    pub fn current_piece(&self) -> (piece: Piece)
        ensures
            piece == self@.current,
    {
        self.current
    }

    /// Where the falling piece would come to rest if it fell straight down.
    /// The game stays as it is, and the answer depends on the board and the
    /// piece alone.
    pub fn ghost_piece(&self) -> (rest: Piece)
        requires
            self.wf(),
        ensures
            rest == landing(self@.board, self@.current),
            fits(self@.board, self@.current) ==> fits(self@.board, rest),
    {
        let mut p = self.current;
        loop
            invariant
                self.wf(),
                -3 <= p.x < BOARD_W,
                p.y < BOARD_H,
                landing(self@.board, p) == landing(self@.board, self@.current),
            decreases BOARD_H - p.y,
        {
            let mut next = p;
            next.y += 1;
            if is_valid(&self.board, next) {
                proof {
                    lemma_reach(next);
                }
                p = next;
            } else {
                proof {
                    lemma_landing_rests(self@.board, self@.current);
                }
                return p;
            }
        }
    }

    /// The score.
    pub fn score(&self) -> (score: u32)
        ensures
            score == self@.score,
    {
        self.score
    }

    /// How many rows have been cleared.
    pub fn lines(&self) -> (lines: u32)
        ensures
            lines == self@.lines,
    {
        self.lines
    }

    /// The level: 1 at the start, one more for every ten cleared rows.
    pub fn level(&self) -> (level: u32)
        ensures
            level == level_of(self@.lines as int),
    {
        (self.lines / 10) + 1
    }

    /// Whether the game has ended.
    pub fn is_game_over(&self) -> (over: bool)
        ensures
            over == self@.game_over,
    {
        self.game_over
    }

    /// What the board holds at column `x` of row `y`; empty for a place
    /// outside the board.
    pub fn cell(&self, x: i32, y: i32) -> (cell: Cell)
        requires
            self.wf(),
        ensures
            cell == cell_at(self@.board, x as int, y as int),
            !(0 <= x < BOARD_W && 0 <= y < BOARD_H) ==> cell == 0,
    {
        if x < 0 || x >= BOARD_W || y < 0 || y >= BOARD_H {
            return 0;
        }
        self.board[(y * BOARD_W + x) as usize]
    }

    /// One step of gravity. A game that has ended stays as it is. Otherwise
    /// the piece moves down by one row if it can; if it cannot, it is locked,
    /// full rows are cleared and scored, and the next piece enters.
    pub fn tick(&mut self) -> (step: Step)
        requires
            old(self).wf(),
        ensures
            final(self).wf(),
            final(self)@ == old(self)@.ticked(final(self)@.next),
            step == old(self)@.tick_report(),
            old(self)@.game_over ==> step == Step::GameOver && final(self)@ == old(self)@,
            !(step is Locked) ==> final(self).source() == old(self).source(),
            final(self)@.score >= old(self)@.score,
            final(self)@.lines >= old(self)@.lines,
            step.rows() <= 4,
            final(self)@.score == capped(
                old(self)@.score + line_points(step.rows()) * level_of(final(self)@.lines as int),
            ),
            final(self)@.lines == capped(old(self)@.lines + step.rows()),
            old(self)@.lines + step.rows() <= u32::MAX ==> final(self)@.lines == old(self)@.lines
                + step.rows(),
    {
        proof {
            lemma_counters_never_fall(self@, self@.next);
        }
        if self.game_over {
            return Step::GameOver;
        }
        if self.try_move(0, 1) {
            return Step::Moved;
        }
        self.settle()
    }

    /// Moves the piece one column to the left if it fits there and the game
    /// goes on.
    pub fn move_left(&mut self)
        requires
            old(self).wf(),
        ensures
            final(self).wf(),
            final(self)@ == if old(self)@.game_over {
                old(self)@
            } else {
                old(self)@.stepped(-1, 0)
            },
            final(self).source() == old(self).source(),
    {
        if !self.game_over {
            self.try_move(-1, 0);
        }
    }

    /// Moves the piece one column to the right if it fits there and the game
    /// goes on.
    pub fn move_right(&mut self)
        requires
            old(self).wf(),
        ensures
            final(self).wf(),
            final(self)@ == if old(self)@.game_over {
                old(self)@
            } else {
                old(self)@.stepped(1, 0)
            },
            final(self).source() == old(self).source(),
    {
        if !self.game_over {
            self.try_move(1, 0);
        }
    }

    /// A drop by one row on request: the same as one step of gravity.
    pub fn soft_drop(&mut self) -> (step: Step)
        requires
            old(self).wf(),
        ensures
            final(self).wf(),
            final(self)@ == old(self)@.ticked(final(self)@.next),
            step == old(self)@.tick_report(),
            old(self)@.game_over ==> step == Step::GameOver && final(self)@ == old(self)@,
            !(step is Locked) ==> final(self).source() == old(self).source(),
            final(self)@.score >= old(self)@.score,
            final(self)@.lines >= old(self)@.lines,
            step.rows() <= 4,
            final(self)@.score == capped(
                old(self)@.score + line_points(step.rows()) * level_of(final(self)@.lines as int),
            ),
            final(self)@.lines == capped(old(self)@.lines + step.rows()),
            old(self)@.lines + step.rows() <= u32::MAX ==> final(self)@.lines == old(self)@.lines
                + step.rows(),
    {
        self.tick()
    }

    /// Drops the piece to rest and locks it there; full rows are cleared and
    /// scored, and the next piece enters. A game that has ended stays as it
    /// is.
    pub fn hard_drop(&mut self) -> (step: Step)
        requires
            old(self).wf(),
        ensures
            final(self).wf(),
            final(self)@ == old(self)@.hard_dropped(final(self)@.next),
            step == old(self)@.drop_report(),
            old(self)@.game_over ==> step == Step::GameOver && final(self)@ == old(self)@,
            !(step is Locked) ==> final(self).source() == old(self).source(),
            final(self)@.score >= old(self)@.score,
            final(self)@.lines >= old(self)@.lines,
            step.rows() <= 4,
            final(self)@.score == capped(
                old(self)@.score + line_points(step.rows()) * level_of(final(self)@.lines as int),
            ),
            final(self)@.lines == capped(old(self)@.lines + step.rows()),
            old(self)@.lines + step.rows() <= u32::MAX ==> final(self)@.lines == old(self)@.lines
                + step.rows(),
    {
        if self.game_over {
            return Step::GameOver;
        }
        let mut falling = true;
        while falling
            invariant
                self.wf(),
                !self@.game_over,
                self@ == old(self)@.with_current(self@.current),
                landing(self@.board, self@.current) == landing(
                    old(self)@.board,
                    old(self)@.current,
                ),
                !falling ==> !fits(self@.board, self@.current.shifted(0, 1)),
            decreases 2 * (BOARD_H - self@.current.y) + if falling { 1int } else { 0int },
        {
            falling = self.try_move(0, 1);
        }
        self.settle()
    }

    /// Turns the piece clockwise if the game goes on and the piece fits in
    /// its next rotation state, where it is or shifted sideways by one of
    /// `KICKS`, the first that fits.
    pub fn rotate_cw(&mut self)
        requires
            old(self).wf(),
        ensures
            final(self).wf(),
            final(self)@ == if old(self)@.game_over {
                old(self)@
            } else {
                old(self)@.rotated()
            },
            final(self).source() == old(self).source(),
    {
        if self.game_over {
            return;
        }
        let mut rotated = self.current;
        rotated.rot = (rotated.rot + 1) % 4;
        let mut i: usize = 0;
        while i < 5
            invariant
                i <= 5,
                self.wf(),
                !self@.game_over,
                *self == *old(self),
                rotated == self@.current.turned(),
                first_kick(self@.board, rotated, 0) == first_kick(self@.board, rotated, i as int),
            decreases 5 - i,
        {
            let mut candidate = rotated;
            candidate.x += KICKS[i];
            if is_valid(&self.board, candidate) {
                proof {
                    lemma_reach(candidate);
                }
                self.current = candidate;
                return;
            }
            i += 1;
        }
    }

    /// Moves the piece by (dx, dy) if it fits there, and tells whether it
    /// moved. The place that is asked for must have coordinates that the
    /// machine can hold.
    fn try_move(&mut self, dx: i32, dy: i32) -> (moved: bool)
        requires
            old(self).wf(),
            i32::MIN <= old(self)@.current.x + dx,
            old(self)@.current.x + dx + 3 <= i32::MAX,
            i32::MIN <= old(self)@.current.y + dy,
            old(self)@.current.y + dy + 3 <= i32::MAX,
        ensures
            final(self).wf(),
            moved == fits(old(self)@.board, old(self)@.current.shifted(dx as int, dy as int)),
            final(self)@ == old(self)@.stepped(dx as int, dy as int),
            final(self).source() == old(self).source(),
    {
        let mut moved = self.current;
        moved.x += dx;
        moved.y += dy;
        if is_valid(&self.board, moved) {
            proof {
                lemma_reach(moved);
            }
            self.current = moved;
            true
        } else {
            false
        }
    }

    /// Adds to the score the points for `cleared` rows times the level that
    /// the count of rows gives, these rows counted: 40 times the level for
    /// one row, 1200 for four rows at level 1. The score stops at the largest
    /// value that it can hold.
    fn apply_score(&mut self, cleared: u32)
        ensures
            final(self)@ == (GameView {
                score: capped(
                    old(self)@.score + line_points(cleared as int) * level_of(
                        old(self)@.lines as int,
                    ),
                ),
                ..old(self)@
            }),
            cleared == 1 && old(self)@.score + 40 * level_of(old(self)@.lines as int) <= u32::MAX
                ==> final(self)@.score == old(self)@.score + 40 * level_of(
                old(self)@.lines as int,
            ),
            cleared == 4 && old(self)@.lines < 10 && old(self)@.score + 1200 <= u32::MAX
                ==> final(self)@.score == old(self)@.score + 1200,
            final(self).source() == old(self).source(),
    {
        let lvl = self.level();
        let add: u32 = match cleared {
            1 => 40,
            2 => 100,
            3 => 300,
            4 => 1200,
            _ => 0,
        };
        assert(add * lvl <= 1200 * lvl) by (nonlinear_arith)
            requires
                add <= 1200,
        ;
        let gain: u64 = (add as u64) * (lvl as u64);
        let total: u64 = self.score as u64 + gain;
        self.score = if total > u32::MAX as u64 {
            u32::MAX
        } else {
            total as u32
        };
    }

    /// Locks the piece where it is, clears and scores the full rows, and lets
    /// the next piece enter.
    fn settle(&mut self) -> (step: Step)
        requires
            old(self).wf(),
            !old(self)@.game_over,
        ensures
            final(self).wf(),
            final(self)@ == old(self)@.settled(final(self)@.next),
            step == old(self)@.lock_report(),
            final(self)@.score >= old(self)@.score,
            final(self)@.lines >= old(self)@.lines,
            step.rows() <= 4,
            final(self)@.score == capped(
                old(self)@.score + line_points(step.rows()) * level_of(final(self)@.lines as int),
            ),
            final(self)@.lines == capped(old(self)@.lines + step.rows()),
            old(self)@.lines + step.rows() <= u32::MAX ==> final(self)@.lines == old(self)@.lines
                + step.rows(),
    {
        proof {
            lemma_counters_never_fall(self@, self@.next);
            lemma_board_stays(self@.board, self@.current);
            lemma_board_stays(locked(self@.board, self@.current), self@.current);
            lemma_lock_fills_four_rows(self@.board, self@.current);
            lemma_clear_leaves_no_full_row(locked(self@.board, self@.current));
        }
        lock_piece(&mut self.board, self.current);
        let cleared = clear_lines(&mut self.board);
        self.lines = self.lines.saturating_add(cleared);
        self.apply_score(cleared);
        self.spawn_new_piece();
        Step::Locked { cleared, game_over: self.game_over }
    }
}

} // verus!
