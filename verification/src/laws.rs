use crate::board::{
    after_clear, board_ok, cell_at, fits, full_rows, lemma_all_survive, lemma_board_stays,
    lemma_empty_board, lemma_equal_rows, lemma_full_rows_bound, lemma_lock_fills_four_rows,
    lemma_reach, lemma_spawn_on_empty, lemma_surviving, lemma_surviving_row, locked, no_full_row,
    row_full, surviving, BOARD_H, BOARD_W,
};
use crate::piece::{Cell, Piece, Tetromino};
use crate::rules::{
    capped, drop_rows, first_kick, landing, level_of, line_points, GameView, Step,
};
use vstd::prelude::*;

verus! {

/// A place outside the board reads as empty, whatever the board holds.
pub proof fn lemma_outside_is_empty(b: Seq<Cell>, x: int, y: int)
    requires
        !(0 <= x < BOARD_W) || !(0 <= y < BOARD_H),
    ensures
        cell_at(b, x, y) == 0,
{
}

/// A game at its start is in order: every cell of the board is empty, the
/// score and the count of rows are zero, the level is 1, the game goes on,
/// and the four cells of the piece that has entered are on the board.
pub proof fn lemma_fresh_game(first: Tetromino, second: Tetromino)
    ensures
        GameView::fresh(first, second).wf(),
        forall|x: int, y: int| cell_at(GameView::fresh(first, second).board, x, y) == 0,
        GameView::fresh(first, second).score == 0,
        GameView::fresh(first, second).lines == 0,
        level_of(GameView::fresh(first, second).lines as int) == 1,
        !GameView::fresh(first, second).game_over,
        forall|i: int|
            0 <= i < 4 ==> 0 <= (#[trigger] GameView::fresh(first, second).current.cell(i)).0
                < BOARD_W && 0 <= GameView::fresh(first, second).current.cell(i).1 < BOARD_H,
{
    lemma_empty_board();
    lemma_spawn_on_empty(first);
}

/// Once the game has ended, a step of gravity and a drop report the end and
/// change nothing: not the board, not the score, not the count of rows.
pub proof fn lemma_ended_game_stays(s: GameView, upcoming: Tetromino)
    requires
        s.game_over,
    ensures
        s.ticked(upcoming) == s,
        s.tick_report() == Step::GameOver,
        s.hard_dropped(upcoming) == s,
        s.drop_report() == Step::GameOver,
{
}

/// Locking a piece writes to the places that the piece covers on the board
/// and to no others. The board keeps its size, so a cell of the piece above
/// the top row is written nowhere.
pub proof fn lemma_lock_marks_covered_cells(b: Seq<Cell>, p: Piece)
    requires
        b.len() == BOARD_W * BOARD_H,
    ensures
        locked(b, p).len() == b.len(),
        forall|x: int, y: int|
            0 <= x < BOARD_W && 0 <= y < BOARD_H ==> #[trigger] cell_at(locked(b, p), x, y)
                == if p.covers(x, y) {
                p.kind.id_of()
            } else {
                cell_at(b, x, y)
            },
{
}

/// Moving a piece by (dx, dy) and back by (-dx, -dy) gives the piece that
/// one started with, which then fits exactly if it did before.
pub proof fn lemma_move_round_trip(b: Seq<Cell>, p: Piece, dx: int, dy: int)
    requires
        i32::MIN <= p.x + dx <= i32::MAX,
        i32::MIN <= p.y + dy <= i32::MAX,
    ensures
        p.shifted(dx, dy).shifted(-dx, -dy) == p,
        fits(b, p.shifted(dx, dy).shifted(-dx, -dy)) == fits(b, p),
{
}

/// In a game that goes on, a move that succeeds is undone by the opposite
/// move.
pub proof fn lemma_step_round_trip(s: GameView, dx: int, dy: int)
    requires
        s.wf(),
        !s.game_over,
        i32::MIN <= s.current.x + dx <= i32::MAX,
        i32::MIN <= s.current.y + dy <= i32::MAX,
        fits(s.board, s.current.shifted(dx, dy)),
    ensures
        s.stepped(dx, dy).stepped(-dx, -dy) == s,
{
    lemma_move_round_trip(s.board, s.current, dx, dy);
}

/// Where a piece comes to rest: straight below where it is, no higher than
/// it is and with its frame within reach of the board. Every place on the
/// way down is free, and the place below the resting place is not. A piece
/// that fits where it is fits where it rests.
pub proof fn lemma_landing_rests(b: Seq<Cell>, p: Piece)
    requires
        p.y < BOARD_H,
    ensures
        landing(b, p) == (Piece { y: landing(b, p).y, ..p }),
        p.y <= landing(b, p).y < BOARD_H,
        landing(b, p).y == p.y + drop_rows(b, p),
        forall|d: int| 0 < d <= drop_rows(b, p) ==> fits(b, #[trigger] p.shifted(0, d)),
        !fits(b, landing(b, p).shifted(0, 1)),
        fits(b, p) ==> fits(b, landing(b, p)),
    decreases BOARD_H - p.y,
{
    let below = p.shifted(0, 1);
    if p.y < BOARD_H - 1 && fits(b, below) {
        lemma_landing_rests(b, below);
        assert forall|d: int| 0 < d <= drop_rows(b, p) implies fits(
            b,
            #[trigger] p.shifted(0, d),
        ) by {
            if d > 1 {
                assert(p.shifted(0, d) == below.shifted(0, d - 1));
            }
        }
    } else if fits(b, below) {
        lemma_reach(below);
    }
}

/// The rotation state goes round in four steps: a piece turned four times is
/// the piece that one started with.
pub proof fn lemma_four_turns(p: Piece)
    requires
        p.rot < 4,
    ensures
        p.turned().turned().turned().turned() == p,
{
}

/// A rotation leaves the kind and the row of the piece as they are. It
/// either takes place, and then the piece is in its next rotation state, in
/// its column or at most two columns beside it, and fits; or it is given up,
/// and then nothing changes.
pub proof fn lemma_rotation(s: GameView)
    requires
        s.wf(),
    ensures
        s.rotated().board == s.board,
        s.rotated().current.kind == s.current.kind,
        s.rotated().current.y == s.current.y,
        s.rotated() == s || ({
            &&& s.rotated().current.rot == s.current.turned().rot
            &&& -2 <= s.rotated().current.x - s.current.x <= 2
            &&& fits(s.board, s.rotated().current)
        }),
{
    reveal_with_fuel(first_kick, 6);
}

/// Four rotations that all take place bring the piece back to the rotation
/// state in which it was. It may then stand in another column, since each
/// rotation may shift it sideways.
pub proof fn lemma_four_rotations(s: GameView)
    requires
        s.wf(),
        s.rotated() != s,
        s.rotated().rotated() != s.rotated(),
        s.rotated().rotated().rotated() != s.rotated().rotated(),
        s.rotated().rotated().rotated().rotated() != s.rotated().rotated().rotated(),
    ensures
        s.rotated().rotated().rotated().rotated().current.rot == s.current.rot,
        s.rotated().rotated().rotated().rotated().current.kind == s.current.kind,
{
    let s1 = s.rotated();
    let s2 = s1.rotated();
    let s3 = s2.rotated();
    lemma_rotation(s);
    lemma_rules_keep_order(s, s.next);
    lemma_rotation(s1);
    lemma_rules_keep_order(s1, s.next);
    lemma_rotation(s2);
    lemma_rules_keep_order(s2, s.next);
    lemma_rotation(s3);
}

/// Every rule takes a game that is in order to a game that is in order.
pub proof fn lemma_rules_keep_order(s: GameView, upcoming: Tetromino)
    requires
        s.wf(),
    ensures
        forall|dx: int, dy: int| (#[trigger] s.stepped(dx, dy)).wf(),
        s.rotated().wf(),
        s.ticked(upcoming).wf(),
        s.hard_dropped(upcoming).wf(),
{
    assert forall|dx: int, dy: int| (#[trigger] s.stepped(dx, dy)).wf() by {
        if fits(s.board, s.current.shifted(dx, dy)) {
            lemma_reach(s.current.shifted(dx, dy));
        }
    }
    assert(s.rotated().wf()) by {
        lemma_rotation(s);
        if s.rotated() != s {
            lemma_reach(s.rotated().current);
        }
    }
    if !s.game_over {
        lemma_settled_in_order(s, upcoming);
        if fits(s.board, s.current.shifted(0, 1)) {
            lemma_reach(s.current.shifted(0, 1));
        }
        lemma_landing_rests(s.board, s.current);
        lemma_settled_in_order(s.with_current(landing(s.board, s.current)), upcoming);
    }
}

/// Locking the piece of a game that is in order gives a game that is in
/// order.
proof fn lemma_settled_in_order(s: GameView, upcoming: Tetromino)
    requires
        board_ok(s.board),
    ensures
        s.settled(upcoming).wf(),
{
    lemma_board_stays(s.board, s.current);
    lemma_board_stays(locked(s.board, s.current), s.current);
    lemma_clear_leaves_no_full_row(locked(s.board, s.current));
}

/// No rule of play lowers the score or the count of cleared rows.
pub proof fn lemma_counters_never_fall(s: GameView, upcoming: Tetromino)
    ensures
        forall|dx: int, dy: int|
            (#[trigger] s.stepped(dx, dy)).score == s.score && s.stepped(dx, dy).lines == s.lines,
        s.rotated().score == s.score && s.rotated().lines == s.lines,
        s.settled(upcoming).score >= s.score && s.settled(upcoming).lines >= s.lines,
        s.ticked(upcoming).score >= s.score && s.ticked(upcoming).lines >= s.lines,
        s.hard_dropped(upcoming).score >= s.score && s.hard_dropped(upcoming).lines >= s.lines,
{
    lemma_settle_counts(s, upcoming);
    lemma_settle_counts(s.with_current(landing(s.board, s.current)), upcoming);
}

/// Locking a piece lowers neither counter.
proof fn lemma_settle_counts(s: GameView, upcoming: Tetromino)
    ensures
        s.settled(upcoming).score >= s.score,
        s.settled(upcoming).lines >= s.lines,
{
    let n = s.rows_completed();
    let lines = s.settled(upcoming).lines;
    assert(line_points(n as int) * level_of(lines as int) >= 0) by (nonlinear_arith)
        requires
            line_points(n as int) >= 0,
            level_of(lines as int) >= 0,
    ;
}

/// What locking a piece reports and scores. The report counts the rows that
/// the piece has completed, four at most on a board at rest, and the count
/// of cleared rows grows by as many. One row is worth 40 points times the
/// level and four rows are worth 1200 times the level, where the level is
/// the one that the new count of rows gives: at level 1 four rows add
/// exactly 1200 to the score. A counter that would pass its ceiling stays
/// there.
pub proof fn lemma_points_for_rows(s: GameView, upcoming: Tetromino)
    ensures
        s.rows_completed() <= BOARD_H,
        board_ok(s.board) && no_full_row(s.board) ==> s.rows_completed() <= 4,
        s.lock_report() == (Step::Locked {
            cleared: s.rows_completed() as u32,
            game_over: s.settled(upcoming).game_over,
        }),
        s.lock_report().rows() == s.rows_completed(),
        s.settled(upcoming).lines == capped(s.lines + s.rows_completed()),
        s.lines + s.rows_completed() <= u32::MAX ==> s.settled(upcoming).lines == s.lines
            + s.rows_completed(),
        s.rows_completed() == 0 ==> s.settled(upcoming).score == s.score,
        s.rows_completed() == 1 ==> s.settled(upcoming).score == capped(
            s.score + 40 * level_of(s.settled(upcoming).lines as int),
        ),
        s.rows_completed() == 1 && s.score + 40 * level_of(s.settled(upcoming).lines as int)
            <= u32::MAX ==> s.settled(upcoming).score == s.score + 40 * level_of(
            s.settled(upcoming).lines as int,
        ),
        s.rows_completed() == 4 ==> s.settled(upcoming).score == capped(
            s.score + 1200 * level_of(s.settled(upcoming).lines as int),
        ),
        s.rows_completed() == 4 && level_of(s.settled(upcoming).lines as int) == 1 && s.score
            + 1200 <= u32::MAX ==> s.settled(upcoming).score == s.score + 1200,
{
    lemma_full_rows_bound(locked(s.board, s.current), BOARD_H as int);
    if board_ok(s.board) && no_full_row(s.board) {
        lemma_lock_fills_four_rows(s.board, s.current);
    }
}

/// Clearing leaves no full row on the board.
pub proof fn lemma_clear_leaves_no_full_row(b: Seq<Cell>)
    requires
        board_ok(b),
    ensures
        no_full_row(after_clear(b)),
{
    let cleared = full_rows(b, BOARD_H as int);
    lemma_surviving(b, BOARD_H as int);
    assert forall|y: int| 0 <= y < BOARD_H implies !#[trigger] row_full(after_clear(b), y) by {
        if y < cleared {
            assert(cell_at(after_clear(b), 0, y) == 0);
        } else {
            let r = lemma_surviving_row(b, BOARD_H as int, y - cleared);
            assert forall|x: int| 0 <= x < BOARD_W implies cell_at(after_clear(b), x, y) == cell_at(
                b,
                x,
                r,
            ) by {
                assert(after_clear(b)[y * BOARD_W + x] == surviving(b, BOARD_H as int)[(y
                    - cleared) * BOARD_W + x]);
            }
            lemma_equal_rows(after_clear(b), y, b, r);
        }
    }
}

/// Clearing a board without a full row changes nothing.
pub proof fn lemma_clear_without_full_row(b: Seq<Cell>)
    requires
        board_ok(b),
        no_full_row(b),
    ensures
        full_rows(b, BOARD_H as int) == 0,
        after_clear(b) == b,
{
    lemma_all_survive(b, BOARD_H as int);
}

} // verus!
