use crate::piece::{blocks_for, Cell, Piece, Tetromino};
use vstd::prelude::*;

verus! {

/// Number of columns of the board.
pub const BOARD_W: i32 = 10;

/// Number of rows of the board. Row 0 is the top row.
pub const BOARD_H: i32 = 20;

/// A board is a row-major sequence of `BOARD_W * BOARD_H` cells, each empty
/// (0) or holding the id of a piece kind (1 to 7).
pub open spec fn board_ok(b: Seq<Cell>) -> bool {
    &&& b.len() == BOARD_W * BOARD_H
    &&& forall|k: int| 0 <= k < b.len() ==> #[trigger] b[k] <= 7
}

/// The board on which every cell is empty.
pub open spec fn empty_board() -> Seq<Cell> {
    Seq::new((BOARD_W * BOARD_H) as nat, |k: int| 0u8)
}

/// What the board holds at column `x` of row `y`; empty outside the board.
pub open spec fn cell_at(b: Seq<Cell>, x: int, y: int) -> Cell {
    if 0 <= x < BOARD_W && 0 <= y < BOARD_H {
        b[y * BOARD_W + x]
    } else {
        0
    }
}

/// Whether a piece may occupy (x, y): the column is on the board, the row is
/// not below the floor, and, unless the row is above the top, the cell is
/// empty.
pub open spec fn cell_open(b: Seq<Cell>, x: int, y: int) -> bool {
    &&& 0 <= x < BOARD_W
    &&& y < BOARD_H
    &&& (y >= 0 ==> cell_at(b, x, y) == 0)
}

/// Whether a piece may stand where it is: each of its four cells is open.
pub open spec fn fits(b: Seq<Cell>, p: Piece) -> bool {
    forall|i: int| 0 <= i < 4 ==> cell_open(b, (#[trigger] p.cell(i)).0, p.cell(i).1)
}

/// Whether each cell of a piece is in a column of the board and not below
/// the floor, whatever the board holds.
pub open spec fn within_walls(p: Piece) -> bool {
    forall|i: int| 0 <= i < 4 ==> 0 <= (#[trigger] p.cell(i)).0 < BOARD_W && p.cell(i).1 < BOARD_H
}

/// The board after a piece has been locked: the cells that the piece covers
/// hold the id of its kind, all others are as before. A cell of the piece
/// above the top row has no place on the board and leaves no trace.
pub open spec fn locked(b: Seq<Cell>, p: Piece) -> Seq<Cell> {
    Seq::new(
        b.len(),
        |k: int|
            if p.covers(k % (BOARD_W as int), k / (BOARD_W as int)) {
                p.kind.id_of()
            } else {
                b[k]
            },
    )
}

/// Whether every cell of row `y` is occupied.
pub open spec fn row_full(b: Seq<Cell>, y: int) -> bool {
    forall|x: int| 0 <= x < BOARD_W ==> #[trigger] cell_at(b, x, y) != 0
}

/// Whether no row of the board is full. A board at rest has no full row:
/// full rows are cleared as soon as a piece has been locked.
pub open spec fn no_full_row(b: Seq<Cell>) -> bool {
    forall|y: int| 0 <= y < BOARD_H ==> !#[trigger] row_full(b, y)
}

/// How many of the four cells of a piece lie on the board in the rows above
/// row `n` (rows 0 to `n - 1`).
pub open spec fn cells_above(p: Piece, n: int) -> int {
    (if 0 <= p.cell(0).1 < n {
        1int
    } else {
        0int
    }) + (if 0 <= p.cell(1).1 < n {
        1int
    } else {
        0int
    }) + (if 0 <= p.cell(2).1 < n {
        1int
    } else {
        0int
    }) + (if 0 <= p.cell(3).1 < n {
        1int
    } else {
        0int
    })
}

/// How many of the rows above row `n` (rows 0 to `n - 1`) are full.
pub open spec fn full_rows(b: Seq<Cell>, n: int) -> nat
    decreases n,
{
    if n <= 0 {
        0
    } else if row_full(b, n - 1) {
        full_rows(b, n - 1) + 1
    } else {
        full_rows(b, n - 1)
    }
}

/// The cells of those rows above row `n` that are not full, top row first.
pub open spec fn surviving(b: Seq<Cell>, n: int) -> Seq<Cell>
    decreases n,
{
    if n <= 0 {
        Seq::empty()
    } else if row_full(b, n - 1) {
        surviving(b, n - 1)
    } else {
        surviving(b, n - 1) + b.subrange((n - 1) * BOARD_W, n * BOARD_W)
    }
}

/// The board after its full rows have been cleared: the rows that are not
/// full keep their order and sink to the floor, one empty row enters at the
/// top for each full row.
pub open spec fn after_clear(b: Seq<Cell>) -> Seq<Cell> {
    Seq::new((full_rows(b, BOARD_H as int) * BOARD_W) as nat, |k: int| 0u8) + surviving(
        b,
        BOARD_H as int,
    )
}

/// The board after row `y` has been taken out: the rows above it have moved
/// down by one and the top row is empty.
pub open spec fn without_row(b: Seq<Cell>, y: int) -> Seq<Cell> {
    Seq::new(
        b.len(),
        |k: int|
            if k < BOARD_W {
                0u8
            } else if k < (y + 1) * BOARD_W {
                b[k - BOARD_W]
            } else {
                b[k]
            },
    )
}

/// Tells whether `piece` may stand on `board`.
pub(crate) fn is_valid(board: &Vec<Cell>, piece: Piece) -> (ok: bool)
    requires
        board.len() == BOARD_W * BOARD_H,
        piece.x + 3 <= i32::MAX,
        piece.y + 3 <= i32::MAX,
    ensures
        ok == fits(board@, piece),
{
    let cells = blocks_for(piece);
    for i in 0..4usize
        invariant
            board.len() == BOARD_W * BOARD_H,
            forall|j: int|
                0 <= j < 4 ==> (#[trigger] cells[j]).0 == piece.cell(j).0 && cells[j].1
                    == piece.cell(j).1,
            forall|j: int|
                0 <= j < i ==> cell_open(board@, (#[trigger] piece.cell(j)).0, piece.cell(j).1),
    {
        let (x, y) = cells[i];
        if x < 0 || x >= BOARD_W || y >= BOARD_H {
            return false;
        }
        if y >= 0 {
            let idx = (y * BOARD_W + x) as usize;
            if board[idx] != 0 {
                return false;
            }
        }
    }
    true
}

/// Writes the id of the piece's kind into the board cells that the piece
/// covers. Cells of the piece above the top row are passed over.
pub(crate) fn lock_piece(board: &mut Vec<Cell>, piece: Piece)
    requires
        old(board).len() == BOARD_W * BOARD_H,
        within_walls(piece),
    ensures
        final(board)@ == locked(old(board)@, piece),
{
    let id = piece.kind.id();
    assert(0 <= piece.cell(0).0 < BOARD_W && piece.cell(0).1 < BOARD_H);
    let cells = blocks_for(piece);
    for i in 0..4usize
        invariant
            board.len() == BOARD_W * BOARD_H,
            within_walls(piece),
            id == piece.kind.id_of(),
            forall|j: int|
                0 <= j < 4 ==> (#[trigger] cells[j]).0 == piece.cell(j).0 && cells[j].1
                    == piece.cell(j).1,
            forall|k: int|
                0 <= k < board.len() ==> #[trigger] board[k] == if piece.covers_first(
                    i as int,
                    k % (BOARD_W as int),
                    k / (BOARD_W as int),
                ) {
                    id
                } else {
                    old(board)[k]
                },
    {
        let (x, y) = cells[i];
        if y >= 0 {
            let idx = (y * BOARD_W + x) as usize;
            board[idx] = id;
        }
    }
}

/// Tells whether every cell of row `y` is occupied.
fn row_is_full(board: &Vec<Cell>, y: i32) -> (full: bool)
    requires
        board.len() == BOARD_W * BOARD_H,
        0 <= y < BOARD_H,
    ensures
        full == row_full(board@, y as int),
{
    let mut x: i32 = 0;
    while x < BOARD_W
        invariant
            board.len() == BOARD_W * BOARD_H,
            0 <= y < BOARD_H,
            0 <= x <= BOARD_W,
            forall|j: int| 0 <= j < x ==> #[trigger] cell_at(board@, j, y as int) != 0,
        decreases BOARD_W - x,
    {
        if board[(y * BOARD_W + x) as usize] == 0 {
            assert(cell_at(board@, x as int, y as int) == 0);
            return false;
        }
        x += 1;
    }
    true
}

/// Takes row `y` out of the board: copies each row above it one row down,
/// the lowest first, and empties the top row.
fn remove_row(board: &mut Vec<Cell>, y: i32)
    requires
        old(board).len() == BOARD_W * BOARD_H,
        0 <= y < BOARD_H,
    ensures
        final(board)@ == without_row(old(board)@, y as int),
{
    let mut yy: i32 = y;
    while yy >= 1
        invariant
            board.len() == BOARD_W * BOARD_H,
            0 <= yy <= y < BOARD_H,
            forall|k: int|
                0 <= k < board.len() ==> #[trigger] board[k] == if (yy + 1) * BOARD_W <= k < (y
                    + 1) * BOARD_W {
                    old(board)[k - BOARD_W]
                } else {
                    old(board)[k]
                },
        decreases yy,
    {
        let mut x: i32 = 0;
        while x < BOARD_W
            invariant
                board.len() == BOARD_W * BOARD_H,
                1 <= yy <= y < BOARD_H,
                0 <= x <= BOARD_W,
                forall|k: int|
                    0 <= k < board.len() ==> #[trigger] board[k] == if yy * BOARD_W <= k < yy
                        * BOARD_W + x || (yy + 1) * BOARD_W <= k < (y + 1) * BOARD_W {
                        old(board)[k - BOARD_W]
                    } else {
                        old(board)[k]
                    },
            decreases BOARD_W - x,
        {
            let from = ((yy - 1) * BOARD_W + x) as usize;
            let to = (yy * BOARD_W + x) as usize;
            let moved = board[from];
            board[to] = moved;
            x += 1;
        }
        yy -= 1;
    }
    let mut x: i32 = 0;
    while x < BOARD_W
        invariant
            board.len() == BOARD_W * BOARD_H,
            0 <= y < BOARD_H,
            0 <= x <= BOARD_W,
            forall|k: int|
                0 <= k < board.len() ==> #[trigger] board[k] == if k < x {
                    0u8
                } else if BOARD_W <= k < (y + 1) * BOARD_W {
                    old(board)[k - BOARD_W]
                } else {
                    old(board)[k]
                },
        decreases BOARD_W - x,
    {
        board[x as usize] = 0;
        x += 1;
    }
}

/// Two rows that hold the same cells are full together.
pub proof fn lemma_equal_rows(a: Seq<Cell>, ya: int, b: Seq<Cell>, yb: int)
    requires
        forall|x: int| 0 <= x < BOARD_W ==> cell_at(a, x, ya) == cell_at(b, x, yb),
    ensures
        row_full(a, ya) == row_full(b, yb),
{
}

/// Clears every full row of the board and says how many there were. Rows are
/// examined from the floor upwards; after a row has been taken out, the row
/// that moved into its place is examined before the next one.
pub(crate) fn clear_lines(board: &mut Vec<Cell>) -> (cleared: u32)
    requires
        old(board).len() == BOARD_W * BOARD_H,
    ensures
        final(board)@ == after_clear(old(board)@),
        cleared == full_rows(old(board)@, BOARD_H as int),
        cleared <= BOARD_H,
{
    let mut cleared: u32 = 0;
    let mut y: i32 = BOARD_H - 1;
    let ghost start = board@;
    while y >= 0
        invariant
            board.len() == BOARD_W * BOARD_H,
            start.len() == BOARD_W * BOARD_H,
            -1 <= y < BOARD_H,
            cleared <= BOARD_H,
            // one empty row has entered at the top for each row taken out
            forall|k: int| 0 <= k < cleared * BOARD_W ==> #[trigger] board[k] == 0,
            // below them, down to row `y`, stand the rows not yet examined
            forall|k: int|
                cleared * BOARD_W <= k < (y + 1) * BOARD_W ==> #[trigger] board[k] == start[k
                    - cleared * BOARD_W],
            // the rows below row `y` are those that survive among the rows examined
            surviving(start, BOARD_H as int) == surviving(start, pending(y as int, cleared as int))
                + board@.subrange(
                (pending(y as int, cleared as int) + cleared) * BOARD_W,
                BOARD_W * BOARD_H,
            ),
            cleared + full_rows(start, pending(y as int, cleared as int)) == full_rows(
                start,
                BOARD_H as int,
            ),
        decreases 2 * (y + 1) + BOARD_H - cleared,
    {
        let ghost before = board@;
        let ghost u = pending(y as int, cleared as int);
        let full = row_is_full(board, y);
        proof {
            if y >= cleared {
                // row `y` is the last of the rows of `start` not yet examined
                lemma_equal_rows(before, y as int, start, u - 1);
            } else {
                // row `y` is one of the empty rows that have entered
                assert(cell_at(before, 0, y as int) == 0);
            }
        }
        if full {
            remove_row(board, y);
            cleared += 1;
            proof {
                assert(board@.subrange((u - 1 + cleared) * BOARD_W, BOARD_W * BOARD_H)
                    =~= before.subrange((u + cleared - 1) * BOARD_W, BOARD_W * BOARD_H));
            }
        } else {
            proof {
                if y >= cleared {
                    assert(start.subrange((u - 1) * BOARD_W, u * BOARD_W) =~= before.subrange(
                        y * BOARD_W,
                        (y + 1) * BOARD_W,
                    ));
                    assert(before.subrange(y * BOARD_W, (y + 1) * BOARD_W) + before.subrange(
                        (y + 1) * BOARD_W,
                        BOARD_W * BOARD_H,
                    ) =~= before.subrange(y * BOARD_W, BOARD_W * BOARD_H));
                }
            }
            y -= 1;
        }
    }
    cleared
}

/// How many rows wait to be examined while row `y` is the next one and
/// `cleared` rows have been taken out.
spec fn pending(y: int, cleared: int) -> int {
    if y + 1 > cleared {
        y + 1 - cleared
    } else {
        0
    }
}

/// Tells whether `board` has the size of a board and holds nothing but
/// empty cells and ids of piece kinds.
pub(crate) fn is_board(board: &Vec<Cell>) -> (ok: bool)
    ensures
        ok == board_ok(board@),
{
    if board.len() != 200 {
        return false;
    }
    let mut k: usize = 0;
    while k < 200
        invariant
            board.len() == 200,
            k <= 200,
            forall|j: int| 0 <= j < k ==> #[trigger] board[j] <= 7,
        decreases 200 - k,
    {
        if board[k] > 7 {
            return false;
        }
        k += 1;
    }
    true
}

/// Empties every cell of the board.
pub(crate) fn wipe(board: &mut Vec<Cell>)
    ensures
        final(board)@ == Seq::new(old(board)@.len(), |k: int| 0u8),
{
    let mut k: usize = 0;
    while k < board.len()
        invariant
            board.len() == old(board).len(),
            k <= board.len(),
            forall|j: int| 0 <= j < k ==> #[trigger] board[j] == 0,
        decreases board.len() - k,
    {
        board[k] = 0;
        k += 1;
    }
}

/// Among the rows above row `n` no more than `n` are full.
pub proof fn lemma_full_rows_bound(b: Seq<Cell>, n: int)
    requires
        0 <= n,
    ensures
        full_rows(b, n) <= n,
    decreases n,
{
    if n > 0 {
        lemma_full_rows_bound(b, n - 1);
    }
}

/// The rows that are not full hold `BOARD_W` cells each, all of them cells
/// of the board.
pub proof fn lemma_surviving(b: Seq<Cell>, n: int)
    requires
        board_ok(b),
        0 <= n <= BOARD_H,
    ensures
        surviving(b, n).len() == (n - full_rows(b, n)) * BOARD_W,
        full_rows(b, n) <= n,
        forall|k: int| 0 <= k < surviving(b, n).len() ==> #[trigger] surviving(b, n)[k] <= 7,
    decreases n,
{
    if n > 0 {
        lemma_surviving(b, n - 1);
    }
}

/// Each row of the cells that survive is a row of the board that was not
/// full.
pub proof fn lemma_surviving_row(b: Seq<Cell>, n: int, j: int) -> (r: int)
    requires
        board_ok(b),
        0 <= n <= BOARD_H,
        0 <= j < n - full_rows(b, n),
    ensures
        0 <= r < n,
        !row_full(b, r),
        forall|x: int|
            0 <= x < BOARD_W ==> surviving(b, n)[j * BOARD_W + x] == #[trigger] cell_at(b, x, r),
    decreases n,
{
    lemma_surviving(b, n - 1);
    if row_full(b, n - 1) || j < n - 1 - full_rows(b, n - 1) {
        lemma_surviving_row(b, n - 1, j)
    } else {
        n - 1
    }
}

/// Where no row above row `n` is full, all the cells of these rows survive.
pub proof fn lemma_all_survive(b: Seq<Cell>, n: int)
    requires
        board_ok(b),
        0 <= n <= BOARD_H,
        forall|y: int| 0 <= y < n ==> !row_full(b, y),
    ensures
        full_rows(b, n) == 0,
        surviving(b, n) == b.subrange(0, n * BOARD_W),
    decreases n,
{
    if n > 0 {
        lemma_all_survive(b, n - 1);
        assert(b.subrange(0, (n - 1) * BOARD_W) + b.subrange((n - 1) * BOARD_W, n * BOARD_W)
            =~= b.subrange(0, n * BOARD_W));
    }
}

/// Locking a piece and clearing the full rows leave a board.
pub proof fn lemma_board_stays(b: Seq<Cell>, p: Piece)
    requires
        board_ok(b),
    ensures
        board_ok(locked(b, p)),
        board_ok(after_clear(b)),
{
    lemma_surviving(b, BOARD_H as int);
}

/// A piece whose cells are between the walls and above the floor has its
/// frame within reach of the board.
pub proof fn lemma_reach(p: Piece)
    requires
        within_walls(p),
    ensures
        -3 <= p.x < BOARD_W,
        p.y < BOARD_H,
{
    assert(0 <= p.cell(0).0 < BOARD_W && p.cell(0).1 < BOARD_H);
}

/// On an empty board a piece of any kind may enter, and all its cells are
/// on the board.
pub proof fn lemma_spawn_on_empty(kind: Tetromino)
    ensures
        fits(empty_board(), Piece::spawn(kind)),
        forall|i: int|
            0 <= i < 4 ==> 0 <= (#[trigger] Piece::spawn(kind).cell(i)).0 < BOARD_W && 0
                <= Piece::spawn(kind).cell(i).1 < BOARD_H,
{
}

/// Tells whether no row of the board is full.
pub(crate) fn has_no_full_row(board: &Vec<Cell>) -> (ok: bool)
    requires
        board.len() == BOARD_W * BOARD_H,
    ensures
        ok == no_full_row(board@),
{
    let mut y: i32 = 0;
    while y < BOARD_H
        invariant
            board.len() == BOARD_W * BOARD_H,
            0 <= y <= BOARD_H,
            forall|r: int| 0 <= r < y ==> !#[trigger] row_full(board@, r),
        decreases BOARD_H - y,
    {
        if row_is_full(board, y) {
            return false;
        }
        y += 1;
    }
    true
}

/// The empty board is a board without a full row.
pub proof fn lemma_empty_board()
    ensures
        board_ok(empty_board()),
        no_full_row(empty_board()),
{
    assert forall|y: int| 0 <= y < BOARD_H implies !#[trigger] row_full(empty_board(), y) by {
        assert(cell_at(empty_board(), 0, y) == 0);
    }
}

/// On a board without a full row, a row that is full once a piece is locked
/// holds a cell of the piece: above row `n` no more rows are full than cells
/// of the piece lie there.
pub proof fn lemma_lock_fills_rows(b: Seq<Cell>, p: Piece, n: int)
    requires
        b.len() == BOARD_W * BOARD_H,
        no_full_row(b),
        0 <= n <= BOARD_H,
    ensures
        full_rows(locked(b, p), n) <= cells_above(p, n),
        cells_above(p, n) <= 4,
    decreases n,
{
    if n > 0 {
        lemma_lock_fills_rows(b, p, n - 1);
        let y = n - 1;
        if row_full(locked(b, p), y) && cells_above(p, n) == cells_above(p, y) {
            // no cell of the piece lies in this row, so the row was full before
            assert forall|x: int| 0 <= x < BOARD_W implies #[trigger] cell_at(locked(b, p), x, y)
                == cell_at(b, x, y) by {
                let k = y * BOARD_W + x;
                assert(k % (BOARD_W as int) == x && k / (BOARD_W as int) == y);
            }
            lemma_equal_rows(locked(b, p), y, b, y);
            assert(row_full(b, y));
        }
    }
}

/// On a board without a full row, one piece completes four rows at most.
pub proof fn lemma_lock_fills_four_rows(b: Seq<Cell>, p: Piece)
    requires
        b.len() == BOARD_W * BOARD_H,
        no_full_row(b),
    ensures
        full_rows(locked(b, p), BOARD_H as int) <= 4,
{
    lemma_lock_fills_rows(b, p, BOARD_H as int);
}

} // verus!
