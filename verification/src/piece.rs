use vstd::prelude::*;

verus! {

/// What one board cell holds: 0 when empty, otherwise the id (1 to 7) of the
/// piece kind that was locked there.
pub type Cell = u8;

/// The seven piece kinds.
#[derive(Debug, Copy, Clone, PartialEq, Eq, Structural)]
pub enum Tetromino {
    I,
    O,
    T,
    S,
    Z,
    J,
    L,
}

/// The occupied cells of every kind in each of its four rotation states, as
/// (dx, dy) offsets inside a 4x4 frame. Rows follow the order of the kinds'
/// ids; the four inner rows are the rotation states 0 to 3.
pub const SHAPES: [[[(i8, i8); 4]; 4]; 7] = [
    [
        [(0, 1), (1, 1), (2, 1), (3, 1)],
        [(2, 0), (2, 1), (2, 2), (2, 3)],
        [(0, 2), (1, 2), (2, 2), (3, 2)],
        [(1, 0), (1, 1), (1, 2), (1, 3)],
    ],
    [
        [(1, 0), (2, 0), (1, 1), (2, 1)],
        [(1, 0), (2, 0), (1, 1), (2, 1)],
        [(1, 0), (2, 0), (1, 1), (2, 1)],
        [(1, 0), (2, 0), (1, 1), (2, 1)],
    ],
    [
        [(1, 0), (0, 1), (1, 1), (2, 1)],
        [(1, 0), (1, 1), (2, 1), (1, 2)],
        [(0, 1), (1, 1), (2, 1), (1, 2)],
        [(1, 0), (0, 1), (1, 1), (1, 2)],
    ],
    [
        [(1, 0), (2, 0), (0, 1), (1, 1)],
        [(1, 0), (1, 1), (2, 1), (2, 2)],
        [(1, 1), (2, 1), (0, 2), (1, 2)],
        [(0, 0), (0, 1), (1, 1), (1, 2)],
    ],
    [
        [(0, 0), (1, 0), (1, 1), (2, 1)],
        [(2, 0), (1, 1), (2, 1), (1, 2)],
        [(0, 1), (1, 1), (1, 2), (2, 2)],
        [(1, 0), (0, 1), (1, 1), (0, 2)],
    ],
    [
        [(0, 0), (0, 1), (1, 1), (2, 1)],
        [(1, 0), (2, 0), (1, 1), (1, 2)],
        [(0, 1), (1, 1), (2, 1), (2, 2)],
        [(1, 0), (1, 1), (0, 2), (1, 2)],
    ],
    [
        [(2, 0), (0, 1), (1, 1), (2, 1)],
        [(1, 0), (1, 1), (1, 2), (2, 2)],
        [(0, 1), (1, 1), (2, 1), (0, 2)],
        [(0, 0), (1, 0), (1, 1), (1, 2)],
    ],
];

impl Tetromino {
    /// The id of a kind as a number.
    pub open spec fn id_of(self) -> Cell {
        match self {
            Tetromino::I => 1,
            Tetromino::O => 2,
            Tetromino::T => 3,
            Tetromino::S => 4,
            Tetromino::Z => 5,
            Tetromino::J => 6,
            Tetromino::L => 7,
        }
    }

    /// The kind that a drawn number stands for: 0 to 5 name I, O, T, S, Z, J
    /// in that order, every other number names L.
    pub open spec fn of_index(n: int) -> Tetromino {
        if n == 0 {
            Tetromino::I
        } else if n == 1 {
            Tetromino::O
        } else if n == 2 {
            Tetromino::T
        } else if n == 3 {
            Tetromino::S
        } else if n == 4 {
            Tetromino::Z
        } else if n == 5 {
            Tetromino::J
        } else {
            Tetromino::L
        }
    }

    /// The id of this kind, between 1 and 7: the value its locked cells hold
    /// on the board.
    #[verifier::when_used_as_spec(id_of)]
    pub fn id(self) -> (id: Cell)
        ensures
            id == self.id_of(),
            1 <= id <= 7,
    {
        match self {
            Tetromino::I => 1,
            Tetromino::O => 2,
            Tetromino::T => 3,
            Tetromino::S => 4,
            Tetromino::Z => 5,
            Tetromino::J => 6,
            Tetromino::L => 7,
        }
    }

    /// Turns a drawn number into a kind.
    pub fn from_index(n: i32) -> (kind: Tetromino)
        ensures
            kind == Tetromino::of_index(n as int),
    {
        match n {
            0 => Tetromino::I,
            1 => Tetromino::O,
            2 => Tetromino::T,
            3 => Tetromino::S,
            4 => Tetromino::Z,
            5 => Tetromino::J,
            _ => Tetromino::L,
        }
    }
}

/// The offset of cell `i` of a kind in rotation state `rot`.
pub open spec fn shape_cell(kind: Tetromino, rot: int, i: int) -> (int, int) {
    let c = SHAPES[kind.id_of() - 1][rot][i];
    (c.0 as int, c.1 as int)
}

/// A falling piece: its kind, its rotation state and the board position of
/// the top left corner of its 4x4 frame.
#[derive(Debug, Copy, Clone, PartialEq, Eq, Structural)]
pub struct Piece {
    pub kind: Tetromino,
    pub rot: u8,
    pub x: i32,
    pub y: i32,
}

impl Piece {
    /// The board coordinates (x, y) of cell `i` of the piece.
    pub open spec fn cell(self, i: int) -> (int, int) {
        let d = shape_cell(self.kind, self.rot as int % 4, i);
        (self.x + d.0, self.y + d.1)
    }

    /// Whether one of the first `n` cells of the piece lies at (x, y).
    pub open spec fn covers_first(self, n: int, x: int, y: int) -> bool {
        ||| n > 0 && self.cell(0) == (x, y)
        ||| n > 1 && self.cell(1) == (x, y)
        ||| n > 2 && self.cell(2) == (x, y)
        ||| n > 3 && self.cell(3) == (x, y)
    }

    /// Whether one of the four cells of the piece lies at (x, y).
    pub open spec fn covers(self, x: int, y: int) -> bool {
        self.covers_first(4, x, y)
    }

    /// The piece moved by (dx, dy).
    pub open spec fn shifted(self, dx: int, dy: int) -> Piece {
        Piece { x: (self.x + dx) as i32, y: (self.y + dy) as i32, ..self }
    }

    /// The piece in its next rotation state, clockwise.
    pub open spec fn turned(self) -> Piece {
        Piece { rot: ((self.rot + 1) % 4) as u8, ..self }
    }

    /// A piece of the given kind where every piece enters the board.
    pub open spec fn spawn(kind: Tetromino) -> Piece {
        Piece { kind, rot: 0, x: 3, y: 0 }
    }
}

fn shape_index(kind: Tetromino) -> (index: usize)
    ensures
        index == kind.id_of() - 1,
{
    (kind.id() as usize) - 1
}

/// The four board cells that a piece occupies.
pub fn blocks_for(piece: Piece) -> (cells: [(i32, i32); 4])
    requires
        piece.x + 3 <= i32::MAX,
        piece.y + 3 <= i32::MAX,
    ensures
        forall|i: int|
            0 <= i < 4 ==> (#[trigger] cells[i]).0 == piece.cell(i).0 && cells[i].1 == piece.cell(
                i,
            ).1,
{
    let rot = (piece.rot % 4) as usize;
    let shape = &SHAPES[shape_index(piece.kind)][rot];
    let mut out = [(0i32, 0i32);4];
    for i in 0..4usize
        invariant
            rot == piece.rot as int % 4,
            *shape == SHAPES[piece.kind.id_of() - 1][rot as int],
            piece.x + 3 <= i32::MAX,
            piece.y + 3 <= i32::MAX,
            forall|j: int|
                0 <= j < i ==> (#[trigger] out[j]).0 == piece.cell(j).0 && out[j].1 == piece.cell(
                    j,
                ).1,
    {
        let (dx, dy) = shape[i];
        out[i] = (piece.x + (dx as i32), piece.y + (dy as i32));
    }
    out
}

} // verus!
